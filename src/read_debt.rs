use vstd::prelude::*;

verus! {

/// `std::io::Error` carried through read results without being inspected.
#[verifier::external_type_specification]
#[verifier::external_body]
pub struct ExIoError(std::io::Error);

/// Number of bytes that a read into a buffer of `buf_len` bytes takes from `chunk`.
pub open spec fn fill_len(buf_len: nat, chunk: Seq<u8>) -> nat {
    if chunk.len() < buf_len {
        chunk.len()
    } else {
        buf_len
    }
}

/// What stays owed after `chunk` was read into a buffer of `buf_len` bytes.
pub open spec fn debt_after(buf_len: nat, chunk: Seq<u8>) -> Option<Seq<u8>> {
    let n = fill_len(buf_len, chunk);
    if n < chunk.len() {
        Some(chunk.skip(n as int))
    } else {
        None
    }
}

/// The bytes owed by a debt state: the empty sequence when nothing is owed.
pub open spec fn owed(d: Option<Seq<u8>>) -> Seq<u8> {
    match d {
        Some(s) => s,
        None => Seq::empty(),
    }
}

/// The buffer after `chunk` was copied into its front.
pub open spec fn filled(buf: Seq<u8>, chunk: Seq<u8>) -> Seq<u8> {
    let n = fill_len(buf.len(), chunk) as int;
    chunk.take(n) + buf.skip(n)
}

/// All chunks joined in order.
pub open spec fn joined(chunks: Seq<Seq<u8>>) -> Seq<u8>
    decreases chunks.len(),
{
    if chunks.len() == 0 {
        Seq::empty()
    } else {
        chunks[0] + joined(chunks.drop_first())
    }
}

/// One read by a reader that drains debt before it takes the next chunk:
/// the bytes handed out, the debt left, the chunks not yet taken.
pub open spec fn reader_step(debt: Option<Seq<u8>>, chunks: Seq<Seq<u8>>, buf_len: nat) -> (
    Seq<u8>,
    Option<Seq<u8>>,
    Seq<Seq<u8>>,
) {
    match debt {
        Some(d) => (d.take(fill_len(buf_len, d) as int), debt_after(buf_len, d), chunks),
        None => if chunks.len() == 0 {
            (Seq::empty(), None, chunks)
        } else {
            let c = chunks[0];
            (c.take(fill_len(buf_len, c) as int), debt_after(buf_len, c), chunks.drop_first())
        },
    }
}

/// A run of reads with the buffer sizes `sizes`, one after another.
pub open spec fn reader_run(debt: Option<Seq<u8>>, chunks: Seq<Seq<u8>>, sizes: Seq<nat>) -> (
    Seq<u8>,
    Option<Seq<u8>>,
    Seq<Seq<u8>>,
)
    decreases sizes.len(),
{
    if sizes.len() == 0 {
        (Seq::empty(), debt, chunks)
    } else {
        let (out, d1, c1) = reader_step(debt, chunks, sizes[0]);
        let (rest, d2, c2) = reader_run(d1, c1, sizes.drop_first());
        (out + rest, d2, c2)
    }
}

proof fn lemma_chunk_split(buf_len: nat, c: Seq<u8>)
    ensures
        c.take(fill_len(buf_len, c) as int) + owed(debt_after(buf_len, c)) == c,
{
    let n = fill_len(buf_len, c) as int;
    if n < c.len() {
        assert(c.take(n) + c.skip(n) =~= c);
    } else {
        assert(c.take(n) + Seq::<u8>::empty() =~= c);
    }
}

/// Reading chunks through a read debt, with buffers of any sizes, neither
/// loses nor repeats a byte: what was handed out, then what is still owed,
/// then the chunks not yet taken, is exactly the debt and chunks at the start.
/// Once nothing is owed and no chunk is left, the reader has seen the
/// concatenation of all chunks.
pub proof fn lemma_read_debt_conserves_bytes(
    debt: Option<Seq<u8>>,
    chunks: Seq<Seq<u8>>,
    sizes: Seq<nat>,
)
    ensures
        ({
            let (out, d, rest) = reader_run(debt, chunks, sizes);
            &&& out + owed(d) + joined(rest) == owed(debt) + joined(chunks)
            &&& (d is None && rest.len() == 0) ==> out == owed(debt) + joined(chunks)
        }),
    decreases sizes.len(),
{
    if sizes.len() > 0 {
        let (out1, d1, c1) = reader_step(debt, chunks, sizes[0]);
        lemma_read_debt_conserves_bytes(d1, c1, sizes.drop_first());
        let (rest, d2, c2) = reader_run(d1, c1, sizes.drop_first());
        match debt {
            Some(dd) => {
                lemma_chunk_split(sizes[0], dd);
                assert(out1 + owed(d1) == owed(debt));
            },
            None => {
                if chunks.len() == 0 {
                    assert(out1 + owed(d1) + joined(c1) =~= owed(debt) + joined(chunks));
                } else {
                    lemma_chunk_split(sizes[0], chunks[0]);
                    assert(out1 + owed(d1) + joined(c1) =~= owed(debt) + joined(chunks));
                }
            },
        }
        assert(out1 + rest + owed(d2) + joined(c2) =~= out1 + (rest + owed(d2) + joined(c2)));
        assert(out1 + owed(d1) + joined(c1) =~= out1 + (owed(d1) + joined(c1)));
    } else {
        assert(Seq::<u8>::empty() + owed(debt) + joined(chunks) =~= owed(debt) + joined(chunks));
    }
    let (out, d, rest) = reader_run(debt, chunks, sizes);
    if d is None && rest.len() == 0 {
        assert(out + owed(d) + joined(rest) =~= out);
    }
}

/// Bytes of a chunk that did not fit into the reader's buffer, kept for the next read.
#[derive(Default)]
pub struct ReadDebt(pub Option<Vec<u8>>);

impl View for ReadDebt {
    type V = Option<Seq<u8>>;

    open spec fn view(&self) -> Option<Seq<u8>> {
        match self.0 {
            Some(v) => Some(v@),
            None => None,
        }
    }
}

impl ReadDebt {
    /// Copies as much of `buf_in` as fits into `buf` and keeps the rest as debt.
    pub fn process_message(&mut self, buf: &mut [u8], buf_in: &[u8]) -> (r: Result<
        usize,
        std::io::Error,
    >)
        requires
            old(self)@ is None,
        ensures
            r is Ok,
            r matches Ok(n) && n == fill_len(old(buf)@.len(), buf_in@),
            final(buf)@ == filled(old(buf)@, buf_in@),
            final(self)@ == debt_after(old(buf)@.len(), buf_in@),
    {
        let l: usize = if buf_in.len() < buf.len() {
            buf_in.len()
        } else {
            buf.len()
        };
        let mut i: usize = 0;
        while i < l
            invariant
                l == fill_len(old(buf)@.len(), buf_in@),
                i <= l,
                buf@.len() == old(buf)@.len(),
                forall|j: int| 0 <= j < i ==> buf@[j] == buf_in@[j],
                forall|j: int| i <= j < buf@.len() ==> buf@[j] == old(buf)@[j],
            decreases l - i,
        {
            buf[i] = buf_in[i];
            i = i + 1;
        }
        assert(buf@ =~= filled(old(buf)@, buf_in@));
        if l < buf_in.len() {
            let mut rest: Vec<u8> = Vec::new();
            let mut k: usize = l;
            while k < buf_in.len()
                invariant
                    l <= k <= buf_in@.len(),
                    rest@ =~= buf_in@.subrange(l as int, k as int),
                decreases buf_in@.len() - k,
            {
                rest.push(buf_in[k]);
                k = k + 1;
            }
            assert(rest@ =~= buf_in@.skip(l as int));
            self.0 = Some(rest);
        }
        Ok(l)
    }

    /// Pays off pending debt into `buf`; `None` when nothing is owed and the
    /// source must be read instead.
    pub fn check_debt(&mut self, buf: &mut [u8]) -> (r: Option<Result<usize, std::io::Error>>)
        ensures
            match old(self)@ {
                None => {
                    &&& r is None
                    &&& final(self)@ is None
                    &&& final(buf)@ == old(buf)@
                },
                Some(d) => {
                    &&& r matches Some(Ok(n)) && n == fill_len(old(buf)@.len(), d)
                    &&& final(buf)@ == filled(old(buf)@, d)
                    &&& final(self)@ == debt_after(old(buf)@.len(), d)
                },
            },
    {
        if let Some(debt) = self.0.take() {
            Some(self.process_message(buf, debt.as_slice()))
        } else {
            None
        }
    }
}

} // verus!
