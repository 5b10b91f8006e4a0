//! Fixed-size chunk buffering between a stream of received fragments and
//! the writes made to a destination.

use vstd::prelude::*;

verus! {

/// The bytes of a sequence of byte strings, one after the other.
pub open spec fn concat(parts: Seq<Seq<u8>>) -> Seq<u8>
    decreases parts.len(),
{
    if parts.len() == 0 {
        Seq::empty()
    } else {
        concat(parts.drop_last()) + parts.last()
    }
}

/// The contents of a list of byte vectors.
pub open spec fn contents(parts: Seq<Vec<u8>>) -> Seq<Seq<u8>> {
    Seq::new(parts.len(), |i: int| parts[i]@)
}

/// Every write but possibly the last has exactly `chunk_size` bytes, and
/// the last one is neither empty nor longer than that.
pub open spec fn chunk_aligned(writes: Seq<Seq<u8>>, chunk_size: nat) -> bool {
    &&& forall|i: int| 0 <= i < writes.len() - 1 ==> (#[trigger] writes[i]).len() == chunk_size
    &&& writes.len() > 0 ==> 0 < writes.last().len() <= chunk_size
}

/// Every one of the writes has exactly `chunk_size` bytes.
pub open spec fn all_full(writes: Seq<Seq<u8>>, chunk_size: nat) -> bool {
    forall|i: int| 0 <= i < writes.len() ==> (#[trigger] writes[i]).len() == chunk_size
}

/// Appending one part appends its bytes.
pub proof fn lemma_concat_push(parts: Seq<Seq<u8>>, part: Seq<u8>)
    ensures
        concat(parts.push(part)) == concat(parts) + part,
{
    assert(parts.push(part).drop_last() =~= parts);
}

/// Writes that are all full make up a whole number of chunks.
pub proof fn lemma_full_writes_len(writes: Seq<Seq<u8>>, chunk_size: nat)
    requires
        all_full(writes, chunk_size),
    ensures
        concat(writes).len() == writes.len() * chunk_size,
    decreases writes.len(),
{
    if writes.len() > 0 {
        lemma_full_writes_len(writes.drop_last(), chunk_size);
        assert(writes.last().len() == chunk_size);
        assert((writes.len() - 1) * chunk_size + chunk_size == writes.len() * chunk_size)
            by (nonlinear_arith);
    } else {
        assert(0 * chunk_size == 0);
    }
}

/// In chunk-aligned writes, write number `i` holds the bytes of the
/// stream that begin at `i` times the chunk size.
pub proof fn lemma_write_is_chunk(writes: Seq<Seq<u8>>, chunk_size: nat, i: int)
    requires
        chunk_size > 0,
        chunk_aligned(writes, chunk_size),
        0 <= i < writes.len(),
    ensures
        i * chunk_size + writes[i].len() <= concat(writes).len(),
        writes[i] == concat(writes).subrange(i * chunk_size, i * chunk_size + writes[i].len()),
    decreases writes.len(),
{
    let head = writes.drop_last();
    assert forall|j: int| 0 <= j < head.len() implies (#[trigger] head[j]).len() == chunk_size by {
        assert(head[j] == writes[j]);
    }
    lemma_full_writes_len(head, chunk_size);
    if i == writes.len() - 1 {
        assert(concat(writes).subrange(i * chunk_size, i * chunk_size + writes[i].len())
            =~= writes[i]);
    } else {
        assert(head.last() == head[head.len() - 1]);
        lemma_write_is_chunk(head, chunk_size, i);
        assert(head[i] == writes[i]);
        assert(concat(writes).subrange(i * chunk_size, i * chunk_size + writes[i].len())
            =~= concat(head).subrange(i * chunk_size, i * chunk_size + writes[i].len()));
    }
}

/// The buffer between the network and the destination. With a chunk size
/// of zero nothing is ever held back.
pub struct ChunkBuffer {
    chunk_size: usize,
    pending: Vec<u8>,
}

impl ChunkBuffer {
    /// The configured chunk size; zero means write-through.
    pub closed spec fn chunk_size(&self) -> nat {
        self.chunk_size as nat
    }

    /// The bytes received but not yet handed out for writing.
    pub closed spec fn pending(&self) -> Seq<u8> {
        self.pending@
    }

    /// Less than one chunk is ever held back, and nothing in write-through
    /// mode.
    pub open spec fn wf(&self) -> bool {
        if self.chunk_size() == 0 {
            self.pending().len() == 0
        } else {
            self.pending().len() < self.chunk_size()
        }
    }

    /// An empty buffer for the given chunk size.
    pub fn new(chunk_size: usize) -> (b: Self)
        ensures
            b.wf(),
            b.chunk_size() == chunk_size,
            b.pending() == Seq::<u8>::empty(),
    {
        ChunkBuffer { chunk_size, pending: Vec::new() }
    }

    /// The configured chunk size.
    pub fn size(&self) -> (c: usize)
        ensures
            c == self.chunk_size(),
    {
        self.chunk_size
    }

    /// The number of bytes currently held back.
    pub fn pending_len(&self) -> (n: usize)
        ensures
            n == self.pending().len(),
    {
        self.pending.len()
    }

    /// Takes one received fragment and appends to `sink` the writes that
    /// are now due, in order.
    fn feed(&mut self, fragment: &[u8], sink: &mut Vec<Vec<u8>>)
        requires
            old(self).wf(),
        ensures
            final(self).wf(),
            final(self).chunk_size() == old(self).chunk_size(),
            final(sink)@.len() >= old(sink)@.len(),
            final(sink)@.subrange(0, old(sink)@.len() as int) == old(sink)@,
            old(self).chunk_size() == 0 ==> final(sink)@.len() == old(sink)@.len() + 1
                && final(sink)@.last()@ == fragment@,
            old(self).chunk_size() > 0 ==> all_full(
                contents(final(sink)@.subrange(old(sink)@.len() as int, final(sink)@.len() as int)),
                old(self).chunk_size(),
            ),
            concat(contents(final(sink)@)) + final(self).pending() == concat(contents(old(sink)@))
                + old(self).pending() + fragment@,
    {
        let ghost sink0 = sink@;
        let ghost pending0 = self.pending@;
        let ghost base = concat(contents(sink0)) + pending0;
        if self.chunk_size == 0 {
            let copy = vstd::slice::slice_to_vec(fragment);
            sink.push(copy);
            proof {
                assert(contents(sink@) =~= contents(sink0).push(fragment@));
                lemma_concat_push(contents(sink0), fragment@);
                assert(sink@.subrange(0, sink0.len() as int) =~= sink0);
                assert(concat(contents(sink@)) + self.pending@ =~= concat(contents(sink0))
                    + pending0 + fragment@);
            }
        } else {
            let n: usize = fragment.len();
            let mut i: usize = 0;
            proof {
                assert(sink@.subrange(0, sink0.len() as int) =~= sink0);
                assert(fragment@.subrange(0, 0) =~= Seq::<u8>::empty());
                assert(base + fragment@.subrange(0, 0) =~= base);
            }
            while i < n
                invariant
                    n == fragment@.len(),
                    i <= n,
                    self.chunk_size == old(self).chunk_size,
                    self.chunk_size > 0,
                    self.pending@.len() < self.chunk_size,
                    base == concat(contents(sink0)) + pending0,
                    sink@.len() >= sink0.len(),
                    sink@.subrange(0, sink0.len() as int) == sink0,
                    all_full(
                        contents(sink@.subrange(sink0.len() as int, sink@.len() as int)),
                        self.chunk_size as nat,
                    ),
                    concat(contents(sink@)) + self.pending@ == base + fragment@.subrange(
                        0,
                        i as int,
                    ),
                decreases n - i,
            {
                let ghost sink1 = sink@;
                let ghost pending1 = self.pending@;
                let byte: u8 = fragment[i];
                self.pending.push(byte);
                proof {
                    assert(fragment@.subrange(0, i + 1) =~= fragment@.subrange(0, i as int).push(
                        byte,
                    ));
                    let head = concat(contents(sink1));
                    let seen = fragment@.subrange(0, i as int);
                    assert(self.pending@ == pending1.push(byte));
                    assert(head + pending1.push(byte) =~= (head + pending1).push(byte));
                    assert(base + seen.push(byte) =~= (base + seen).push(byte));
                }
                if self.pending.len() == self.chunk_size {
                    let mut full: Vec<u8> = Vec::new();
                    std::mem::swap(&mut self.pending, &mut full);
                    sink.push(full);
                    proof {
                        assert(contents(sink@) =~= contents(sink1).push(full@));
                        lemma_concat_push(contents(sink1), full@);
                        assert(concat(contents(sink@)) + self.pending@ =~= concat(contents(sink1))
                            + full@);
                        assert(sink@.subrange(0, sink0.len() as int) =~= sink0);
                        let fresh = contents(sink@.subrange(sink0.len() as int, sink@.len() as int));
                        let before = contents(
                            sink1.subrange(sink0.len() as int, sink1.len() as int),
                        );
                        assert(fresh =~= before.push(full@));
                    }
                }
                i = i + 1;
            }
            proof {
                assert(fragment@.subrange(0, n as int) =~= fragment@);
            }
        }
    }

    /// Takes one received fragment and returns the writes that are now due,
    /// in order. In write-through mode that is the fragment itself; else
    /// as many full chunks as the held-back bytes and the fragment make up,
    /// the rest being held back.
    pub fn push(&mut self, fragment: &[u8]) -> (writes: Vec<Vec<u8>>)
        requires
            old(self).wf(),
        ensures
            final(self).wf(),
            final(self).chunk_size() == old(self).chunk_size(),
            old(self).chunk_size() == 0 ==> contents(writes@) == seq![fragment@],
            old(self).chunk_size() > 0 ==> all_full(contents(writes@), old(self).chunk_size()),
            concat(contents(writes@)) + final(self).pending() == old(self).pending() + fragment@,
            old(self).chunk_size() > 0 ==> writes@.len() == (old(self).pending().len()
                + fragment@.len()) / old(self).chunk_size() && final(self).pending().len() == (old(
                self,
            ).pending().len() + fragment@.len()) % old(self).chunk_size(),
    {
        let mut writes: Vec<Vec<u8>> = Vec::new();
        proof {
            assert(contents(writes@) =~= Seq::<Seq<u8>>::empty());
            assert(concat(contents(writes@)) + self.pending@ + fragment@ =~= self.pending@
                + fragment@);
        }
        self.feed(fragment, &mut writes);
        proof {
            assert(writes@.subrange(0, writes@.len() as int) =~= writes@);
            if self.chunk_size == 0 {
                assert(contents(writes@) =~= seq![fragment@]);
            } else {
                let c = self.chunk_size as nat;
                let whole = old(self).pending() + fragment@;
                lemma_full_writes_len(contents(writes@), c);
                assert(whole.len() == concat(contents(writes@)).len() + self.pending@.len());
                vstd::arithmetic::div_mod::lemma_fundamental_div_mod_converse(
                    whole.len() as int,
                    c as int,
                    writes@.len() as int,
                    self.pending@.len() as int,
                );
            }
        }
        writes
    }

    /// Ends the stream: hands out what is still held back, if anything.
    pub fn finish(&mut self) -> (last: Option<Vec<u8>>)
        requires
            old(self).wf(),
        ensures
            final(self).wf(),
            final(self).chunk_size() == old(self).chunk_size(),
            final(self).pending() == Seq::<u8>::empty(),
            last is Some <==> old(self).pending().len() > 0,
            last is Some ==> last.unwrap()@ == old(self).pending(),
    {
        if self.pending.len() == 0 {
            None
        } else {
            let mut rest: Vec<u8> = Vec::new();
            std::mem::swap(&mut self.pending, &mut rest);
            Some(rest)
        }
    }
}

/// The writes made for a whole stream of fragments: the same bytes in the
/// same order, cut into chunks of `chunk_size` bytes (the last one may be
/// shorter), or, with a chunk size of zero, the fragments as they came.
pub fn chunk_stream(chunk_size: usize, fragments: &Vec<Vec<u8>>) -> (writes: Vec<Vec<u8>>)
    ensures
        concat(contents(writes@)) == concat(contents(fragments@)),
        chunk_size == 0 ==> contents(writes@) == contents(fragments@),
        chunk_size > 0 ==> chunk_aligned(contents(writes@), chunk_size as nat),
{
    let mut buffer = ChunkBuffer::new(chunk_size);
    let mut writes: Vec<Vec<u8>> = Vec::new();
    let mut k: usize = 0;
    proof {
        assert(contents(writes@) =~= contents(fragments@.subrange(0, 0)));
        assert(concat(contents(writes@)) + buffer.pending() =~= concat(
            contents(fragments@.subrange(0, 0)),
        ));
    }
    while k < fragments.len()
        invariant
            k <= fragments@.len(),
            buffer.wf(),
            buffer.chunk_size() == chunk_size,
            concat(contents(writes@)) + buffer.pending() == concat(
                contents(fragments@.subrange(0, k as int)),
            ),
            chunk_size == 0 ==> contents(writes@) == contents(fragments@.subrange(0, k as int)),
            chunk_size > 0 ==> all_full(contents(writes@), chunk_size as nat),
        decreases fragments@.len() - k,
    {
        let ghost writes1 = writes@;
        let ghost pending1 = buffer.pending();
        buffer.feed(fragments[k].as_slice(), &mut writes);
        proof {
            let frag = fragments@[k as int]@;
            let upto = contents(fragments@.subrange(0, k as int));
            assert(contents(fragments@.subrange(0, k + 1)) =~= upto.push(frag));
            lemma_concat_push(upto, frag);
            assert(concat(contents(writes@)) + buffer.pending() =~= concat(upto.push(frag))) by {
                assert((concat(contents(writes1)) + pending1) + frag =~= concat(contents(writes1))
                    + pending1 + frag);
            }
            if chunk_size == 0 {
                assert(writes@ =~= writes@.subrange(0, writes1.len() as int).push(writes@.last()));
                assert(contents(writes@) =~= contents(writes1).push(frag));
            } else {
                let fresh = contents(writes@.subrange(writes1.len() as int, writes@.len() as int));
                assert forall|i: int| 0 <= i < contents(writes@).len() implies (
                #[trigger] contents(writes@)[i]).len() == chunk_size by {
                    if i < writes1.len() {
                        assert(writes@[i] == writes@.subrange(0, writes1.len() as int)[i]);
                        assert(contents(writes@)[i] == contents(writes1)[i]);
                    } else {
                        assert(contents(writes@)[i] == fresh[i - writes1.len()]);
                    }
                }
            }
        }
        k = k + 1;
    }
    proof {
        assert(fragments@.subrange(0, k as int) =~= fragments@);
    }
    let ghost writes2 = writes@;
    let ghost pending2 = buffer.pending();
    match buffer.finish() {
        Some(rest) => {
            writes.push(rest);
            proof {
                assert(contents(writes@) =~= contents(writes2).push(pending2));
                lemma_concat_push(contents(writes2), pending2);
            }
        },
        None => {
            proof {
                assert(concat(contents(writes2)) + pending2 =~= concat(contents(writes2)));
            }
        },
    }
    writes
}

} // verus!
