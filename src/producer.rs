use vstd::prelude::*;

verus! {

/// Collects a stream of samples and hands it on in batches of a fixed size.
///
/// Samples come out in the order they went in; a batch is handed out as soon
/// as it is full and the remainder waits for the next samples.
pub struct BatchAccumulator<T> {
    batch_size: usize,
    pending: Vec<T>,
}

impl<T> BatchAccumulator<T> {
    /// Samples taken in since the last full batch.
    pub closed spec fn waiting(&self) -> Seq<T> {
        self.pending@
    }

    /// Number of samples in each batch.
    pub closed spec fn size(&self) -> usize {
        self.batch_size
    }

    pub closed spec fn wf(&self) -> bool {
        0 < self.batch_size && self.pending@.len() < self.batch_size
    }

    /// An accumulator with no samples waiting.
    pub fn new(batch_size: usize) -> (r: BatchAccumulator<T>)
        requires
            batch_size > 0,
        ensures
            r.wf(),
            r.size() == batch_size,
            r.waiting() == Seq::<T>::empty(),
    {
        BatchAccumulator { batch_size, pending: Vec::new() }
    }

    pub fn batch_size(&self) -> (r: usize)
        ensures
            r == self.size(),
    {
        self.batch_size
    }

    /// Number of samples waiting for the batch to fill.
    pub fn waiting_len(&self) -> (r: usize)
        ensures
            r == self.waiting().len(),
    {
        self.pending.len()
    }

    /// Takes in one sample; returns the batch it completes, if it completes
    /// one.
    pub fn push(&mut self, sample: T) -> (r: Option<Vec<T>>)
        requires
            old(self).wf(),
        ensures
            final(self).wf(),
            final(self).size() == old(self).size(),
            old(self).waiting().len() + 1 == old(self).size() ==> {
                &&& r matches Some(b) && b@ == old(self).waiting().push(sample)
                &&& final(self).waiting() == Seq::<T>::empty()
            },
            old(self).waiting().len() + 1 < old(self).size() ==> {
                &&& r is None
                &&& final(self).waiting() == old(self).waiting().push(sample)
            },
    {
        self.pending.push(sample);
        if self.pending.len() == self.batch_size {
            let mut full: Vec<T> = Vec::new();
            std::mem::swap(&mut full, &mut self.pending);
            Some(full)
        } else {
            None
        }
    }
}

} // verus!
