use vstd::prelude::*;
use crate::read_debt::{fill_len, filled, joined, owed, ReadDebt};

verus! {

/// The echo endpoint `mirror:`: what is written to it is read back from it,
/// in order, through a read debt.
pub struct Mirror {
    pub debt: ReadDebt,
    pub queued: Vec<Vec<u8>>,
}

pub open spec fn chunk_views(q: Seq<Vec<u8>>) -> Seq<Seq<u8>> {
    q.map_values(|c: Vec<u8>| c@)
}

impl View for Mirror {
    type V = Seq<u8>;

    /// The bytes written and not yet read, oldest first.
    open spec fn view(&self) -> Seq<u8> {
        owed(self.debt@) + joined(chunk_views(self.queued@))
    }
}

proof fn lemma_joined_push(cs: Seq<Seq<u8>>, c: Seq<u8>)
    ensures
        joined(cs.push(c)) == joined(cs) + c,
    decreases cs.len(),
{
    if cs.len() == 0 {
        assert(cs.push(c).drop_first() =~= Seq::<Seq<u8>>::empty());
        assert(joined(Seq::<Seq<u8>>::empty()) == Seq::<u8>::empty());
        assert(joined(cs.push(c)) =~= c + Seq::<u8>::empty());
        assert(c + Seq::<u8>::empty() =~= c);
    } else {
        assert(cs.push(c).drop_first() =~= cs.drop_first().push(c));
        lemma_joined_push(cs.drop_first(), c);
        assert(joined(cs.push(c)) =~= joined(cs) + c);
    }
}

impl Mirror {
    pub fn new() -> (r: Mirror)
        ensures
            r@ == Seq::<u8>::empty(),
    {
        let r = Mirror { debt: ReadDebt(None), queued: Vec::new() };
        assert(chunk_views(r.queued@) =~= Seq::<Seq<u8>>::empty());
        assert(r@ =~= Seq::<u8>::empty());
        r
    }

    /// Accepts the bytes of one write.
    pub fn write(&mut self, data: Vec<u8>)
        ensures
            final(self)@ == old(self)@ + data@,
    {
        let ghost before = chunk_views(self.queued@);
        let ghost d = data@;
        self.queued.push(data);
        proof {
            assert(chunk_views(self.queued@) =~= before.push(d));
            lemma_joined_push(before, d);
            assert(self@ =~= old(self)@ + d);
        }
    }

    /// Reads the oldest pending bytes into `buf`, as many as fit; 0 only when
    /// nothing is pending or `buf` is empty.
    pub fn read(&mut self, buf: &mut [u8]) -> (r: usize)
        ensures
            r <= old(buf)@.len(),
            r <= old(self)@.len(),
            final(buf)@.len() == old(buf)@.len(),
            final(buf)@.take(r as int) == old(self)@.take(r as int),
            final(self)@ == old(self)@.skip(r as int),
            r == 0 ==> old(buf)@.len() == 0 || old(self)@.len() == 0,
        decreases old(self).queued@.len(), if old(self).debt@ is Some {
            1int
        } else {
            0int
        },
    {
        let ghost total = self@;
        match self.debt.check_debt(buf) {
            Some(Ok(n)) => {
                proof {
                    let d = owed(old(self).debt@);
                    let rest = joined(chunk_views(self.queued@));
                    assert(d.take(n as int) + owed(self.debt@) =~= d) by {
                        if (n as int) < d.len() {
                            assert(d.take(n as int) + d.skip(n as int) =~= d);
                        }
                    }
                    assert(filled(old(buf)@, d).take(n as int) =~= d.take(n as int));
                    assert(total.take(n as int) =~= d.take(n as int));
                    assert(self@ =~= total.skip(n as int));
                }
                if n == 0 && buf.len() > 0 {
                    // an empty debt gave nothing: read on from the queue
                    assert(total == self@);
                    return self.read(buf);
                }
                n
            },
            Some(Err(_)) => 0,
            None => {
                if self.queued.len() == 0 {
                    proof {
                        assert(chunk_views(self.queued@) =~= Seq::<Seq<u8>>::empty());
                    }
                    0
                } else {
                    let chunk = self.queued.remove(0);
                    proof {
                        assert(chunk_views(old(self).queued@) =~= seq![chunk@] + chunk_views(self.queued@));
                        assert(chunk_views(old(self).queued@).drop_first() =~= chunk_views(self.queued@));
                    }
                    let n = match self.debt.process_message(buf, chunk.as_slice()) {
                        Ok(n) => n,
                        Err(_) => 0,
                    };
                    proof {
                        let c = chunk@;
                        let rest = joined(chunk_views(self.queued@));
                        assert(total =~= c + rest);
                        assert(c.take(n as int) + owed(self.debt@) =~= c) by {
                            if (n as int) < c.len() {
                                assert(c.take(n as int) + c.skip(n as int) =~= c);
                            }
                        }
                        assert(filled(old(buf)@, c).take(n as int) =~= c.take(n as int));
                        assert(total.take(n as int) =~= c.take(n as int));
                        assert(self@ =~= total.skip(n as int));
                    }
                    if n == 0 && buf.len() > 0 {
                        // an empty chunk: read on from the rest of the queue
                        return self.read(buf);
                    }
                    n
                }
            },
        }
    }
}

/// Reads that take `ns[0]`, `ns[1]`, ... bytes (or all there is, when fewer
/// are pending) from the front of the pending bytes `q`: everything handed
/// out, and what is still pending.
pub open spec fn echo_reads(q: Seq<u8>, ns: Seq<nat>) -> (Seq<u8>, Seq<u8>)
    decreases ns.len(),
{
    if ns.len() == 0 {
        (Seq::empty(), q)
    } else {
        let n = if ns[0] <= q.len() {
            ns[0] as int
        } else {
            q.len() as int
        };
        let (rest, left) = echo_reads(q.skip(n), ns.drop_first());
        (q.take(n) + rest, left)
    }
}

/// What is written to the echo endpoint comes back in order: for any reads,
/// of whatever sizes, the bytes handed out followed by those still pending
/// are the bytes written.
pub proof fn lemma_mirror_echoes(written: Seq<u8>, ns: Seq<nat>)
    ensures
        ({
            let (out, left) = echo_reads(written, ns);
            out + left == written
        }),
    decreases ns.len(),
{
    if ns.len() > 0 {
        let n = if ns[0] <= written.len() {
            ns[0] as int
        } else {
            written.len() as int
        };
        lemma_mirror_echoes(written.skip(n), ns.drop_first());
        let (rest, left) = echo_reads(written.skip(n), ns.drop_first());
        assert(written.take(n) + rest + left =~= written.take(n) + (rest + left));
        assert(written.take(n) + written.skip(n) =~= written);
    }
}

} // verus!
