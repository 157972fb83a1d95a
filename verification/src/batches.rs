//! The queue of signed transactions between the generator and the sender
//! threads: each round's transactions are cut into one batch per thread and
//! queued; every sender takes the oldest batch.
use vstd::prelude::*;
use std::collections::VecDeque;

verus! {

/// `s` cut into consecutive pieces of `size` items, the last one possibly
/// shorter, as `<[T]>::chunks(size)` cuts a slice.
pub open spec fn chunks<T>(s: Seq<T>, size: nat) -> Seq<Seq<T>>
    decreases s.len(),
{
    if size == 0 || s.len() == 0 {
        Seq::empty()
    } else if s.len() <= size {
        seq![s]
    } else {
        seq![s.take(size as int)] + chunks(s.skip(size as int), size)
    }
}

/// The batch size for `len` transactions shared among `threads` senders.
pub open spec fn batch_size(len: nat, threads: nat) -> nat {
    len / threads
}

/// The batches that `len`-many transactions are cut into for `threads` senders.
pub open spec fn batches_of<T>(items: Seq<T>, threads: nat) -> Seq<Seq<T>> {
    chunks(items, batch_size(items.len(), threads))
}

/// A first-in first-out queue of transaction batches.
pub struct BatchQueue<T> {
    batches: VecDeque<Vec<T>>,
}

impl<T> View for BatchQueue<T> {
    type V = Seq<Seq<T>>;

    /// The queued batches, oldest first.
    closed spec fn view(&self) -> Seq<Seq<T>> {
        self.batches@.map_values(|b: Vec<T>| b@)
    }
}

impl<T> BatchQueue<T> {
    pub fn new() -> (queue: BatchQueue<T>)
        ensures
            queue@ == Seq::<Seq<T>>::empty(),
    {
        let queue = BatchQueue { batches: VecDeque::new() };
        assert(queue@ =~= Seq::<Seq<T>>::empty());
        queue
    }

    /// The number of queued batches.
    pub fn len(&self) -> (n: usize)
        ensures
            n == self@.len(),
    {
        self.batches.len()
    }

    pub fn is_empty(&self) -> (empty: bool)
        ensures
            empty == (self@.len() == 0),
    {
        self.batches.len() == 0
    }

    fn push_batch(&mut self, batch: Vec<T>)
        ensures
            final(self)@ == old(self)@.push(batch@),
    {
        self.batches.push_back(batch);
        assert(self@ =~= old(self)@.push(batch@));
    }

    /// Cuts one round's transactions into batches of `items.len() / threads`
    /// (the last one takes the rest) and queues them in order.
    pub fn push_batches(&mut self, items: Vec<T>, threads: usize)
        requires
            threads > 0,
            items@.len() >= threads,
        ensures
            final(self)@ == old(self)@ + batches_of(items@, threads as nat),
    {
        let size = items.len() / threads;
        assert(size > 0) by (nonlinear_arith)
            requires
                size as int == items@.len() as int / threads as int,
                items@.len() >= threads,
                threads > 0,
        ;
        let ghost all = items@;
        let mut rest = items;
        while rest.len() > size
            invariant
                size > 0,
                size == batch_size(all.len(), threads as nat),
                self@ + chunks(rest@, size as nat) == old(self)@ + batches_of(all, threads as nat),
            decreases rest@.len(),
        {
            let ghost before = rest@;
            let tail = rest.split_off(size);
            assert(before.take(size as int) =~= rest@);
            assert(before.skip(size as int) =~= tail@);
            assert(chunks(before, size as nat) == seq![rest@] + chunks(tail@, size as nat));
            let batch = rest;
            rest = tail;
            self.push_batch(batch);
            assert(self@ + chunks(rest@, size as nat) =~= old(self)@ + batches_of(
                all,
                threads as nat,
            ));
        }
        if rest.len() > 0 {
            assert(chunks(rest@, size as nat) == seq![rest@]);
            self.push_batch(rest);
            assert(self@ =~= old(self)@ + batches_of(all, threads as nat));
        } else {
            assert(self@ =~= old(self)@ + batches_of(all, threads as nat));
        }
    }

    /// Takes the oldest batch, if any.
    pub fn pop_batch(&mut self) -> (batch: Option<Vec<T>>)
        ensures
            match batch {
                Some(b) => old(self)@.len() > 0 && b@ == old(self)@[0] && final(self)@
                    == old(self)@.drop_first(),
                None => old(self)@.len() == 0 && final(self)@ == old(self)@,
            },
    {
        let batch = self.batches.pop_front();
        proof {
            if batch is Some {
                assert(self@ =~= old(self)@.drop_first());
            }
        }
        batch
    }
}

/// Cutting into pieces loses, repeats and reorders nothing: the pieces laid
/// end to end give back what was cut.
pub proof fn lemma_chunks_flatten<T>(s: Seq<T>, size: nat)
    requires
        size > 0,
    ensures
        chunks(s, size).flatten() == s,
    decreases s.len(),
{
    if s.len() == 0 {
        assert(chunks(s, size).flatten() =~= s);
    } else if s.len() <= size {
        seq![s].lemma_flatten_one_element();
    } else {
        let head = s.take(size as int);
        let tail = s.skip(size as int);
        lemma_chunks_flatten(tail, size);
        vstd::seq_lib::lemma_flatten_concat(seq![head], chunks(tail, size));
        seq![head].lemma_flatten_one_element();
        assert(head + tail =~= s);
    }
}

/// Every piece holds `size` items, but the last, which holds between one and
/// `size`.
pub proof fn lemma_chunks_sizes<T>(s: Seq<T>, size: nat)
    requires
        size > 0,
    ensures
        forall|k: int|
            0 <= k < chunks(s, size).len() ==> 0 < #[trigger] chunks(s, size)[k].len() <= size,
        forall|k: int|
            0 <= k < chunks(s, size).len() - 1 ==> #[trigger] chunks(s, size)[k].len() == size,
    decreases s.len(),
{
    if s.len() > size {
        let tail = s.skip(size as int);
        lemma_chunks_sizes(tail, size);
        let c = chunks(s, size);
        assert forall|k: int| 1 <= k < c.len() implies c[k] == chunks(tail, size)[k - 1] by {}
    }
}

/// There are as many pieces as `size` goes into the length, rounded up.
pub proof fn lemma_chunks_count<T>(s: Seq<T>, size: nat)
    requires
        size > 0,
    ensures
        chunks(s, size).len() == (s.len() + size - 1) / (size as int),
    decreases s.len(),
{
    if s.len() == 0 {
        assert((size - 1) / (size as int) == 0) by (nonlinear_arith)
            requires
                size > 0,
        ;
    } else if s.len() <= size {
        assert((s.len() + size - 1) / (size as int) == 1) by (nonlinear_arith)
            requires
                size > 0,
                0 < s.len() <= size,
        ;
    } else {
        let tail = s.skip(size as int);
        lemma_chunks_count(tail, size);
        assert((s.len() + size - 1) / (size as int) == (tail.len() + size - 1) / (size as int) + 1)
            by (nonlinear_arith)
            requires
                size > 0,
                tail.len() == s.len() - size,
        {
            vstd::arithmetic::div_mod::lemma_div_plus_one((tail.len() + size - 1) as int, size as int);
        }
    }
}

/// Whatever the queue held, queueing a round's batches and then taking batches
/// until the queue is empty hands out the old contents followed by exactly
/// the round's transactions, in order.
pub proof fn lemma_queue_hands_out_in_order<T>(held: Seq<Seq<T>>, items: Seq<T>, threads: nat)
    requires
        threads > 0,
        items.len() >= threads,
    ensures
        (held + batches_of(items, threads)).flatten() == held.flatten() + items,
{
    assert(batch_size(items.len(), threads) > 0) by (nonlinear_arith)
        requires
            items.len() >= threads,
            threads > 0,
    ;
    lemma_chunks_flatten(items, batch_size(items.len(), threads));
    vstd::seq_lib::lemma_flatten_concat(held, batches_of(items, threads));
}

/// A round of `items` shared among `threads` senders is cut into batches of
/// exactly `items.len() / threads` transactions, but the last, which holds the
/// rest (at least one, at most that many); laid end to end they give back the
/// round; when `threads` divides the length there is one batch per thread.
pub proof fn lemma_one_batch_per_thread<T>(items: Seq<T>, threads: nat)
    requires
        threads > 0,
        items.len() >= threads,
    ensures
        forall|k: int|
            0 <= k < batches_of(items, threads).len() - 1 ==> #[trigger] batches_of(items, threads)[k].len()
                == items.len() / threads,
        forall|k: int|
            0 <= k < batches_of(items, threads).len() ==> 0 < #[trigger] batches_of(items, threads)[k].len()
                <= items.len() / threads,
        batches_of(items, threads).flatten() == items,
        items.len() % threads == 0 ==> batches_of(items, threads).len() == threads,
{
    let size = items.len() / threads;
    assert(size > 0) by (nonlinear_arith)
        requires
            size == items.len() / threads,
            items.len() >= threads,
            threads > 0,
    ;
    lemma_chunks_sizes(items, size);
    lemma_chunks_flatten(items, size);
    lemma_chunks_count(items, size);
    if items.len() % threads == 0 {
        assert((items.len() + size - 1) / (size as int) == threads) by (nonlinear_arith)
            requires
                size == items.len() / threads,
                items.len() % threads == 0,
                size > 0,
                threads > 0,
        {
            assert(items.len() == threads * size);
            vstd::arithmetic::div_mod::lemma_fundamental_div_mod_converse(
                (items.len() + size - 1) as int,
                size as int,
                threads as int,
                (size - 1) as int,
            );
        }
    }
}

} // verus!
