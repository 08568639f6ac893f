use vstd::layout::size_of;
use vstd::prelude::*;

verus! {

/// A vector of samples that is drained front to back into fixed-size output
/// slices, keeping track of how much of it has been handed out.
pub struct SampleBuffer<T> {
    underlier: Vec<T>,
    elem_size: usize,
    index: usize,
}

impl<T: Copy> SampleBuffer<T> {
    /// The samples currently held, consumed or not.
    pub closed spec fn samples(&self) -> Seq<T> {
        self.underlier@
    }

    /// How many of the held samples have been consumed.
    pub closed spec fn position(&self) -> nat {
        self.index as nat
    }

    /// The samples that have not been consumed yet.
    pub open spec fn pending(&self) -> Seq<T> {
        self.samples().subrange(self.position() as int, self.samples().len() as int)
    }

    pub closed spec fn wf(&self) -> bool {
        &&& self.index <= self.underlier@.len()
        &&& self.elem_size as int == size_of::<T>()
    }

    /// Takes ownership of `source`, with nothing consumed yet.
    pub fn new(source: Vec<T>) -> (buf: SampleBuffer<T>)
        ensures
            buf.wf(),
            buf.samples() == source@,
            buf.position() == 0,
    {
        SampleBuffer { underlier: source, elem_size: core::mem::size_of::<T>(), index: 0 }
    }

    /// The samples held, consumed or not.
    pub fn underlier(&self) -> (v: &Vec<T>)
        ensures
            v@ == self.samples(),
    {
        &self.underlier
    }

    /// The number of samples consumed so far.
    pub fn index(&self) -> (i: usize)
        ensures
            i == self.position(),
    {
        self.index
    }

    /// The size in bytes of one sample.
    pub fn elem_size(&self) -> (s: usize)
        requires
            self.wf(),
        ensures
            s as int == size_of::<T>(),
    {
        self.elem_size
    }

    fn reset_index(&mut self)
        ensures
            final(self).underlier == old(self).underlier,
            final(self).elem_size == old(self).elem_size,
            final(self).index == 0,
    {
        self.index = 0;
    }

    /// The number of samples not consumed yet.
    pub fn elements_remaining(&self) -> (n: usize)
        requires
            self.wf(),
        ensures
            n == self.pending().len(),
            n == self.samples().len() - self.position(),
    {
        self.underlier.len() - self.index
    }

    /// Replaces the held samples by `new_data`, with nothing consumed yet.
    pub fn overwrite(&mut self, new_data: Vec<T>)
        requires
            old(self).wf(),
        ensures
            final(self).wf(),
            final(self).samples() == new_data@,
            final(self).position() == 0,
    {
        self.underlier = new_data;
        self.reset_index();
    }

    /// Copies the next `count` pending samples into `target[start..start + count]`
    /// and marks them consumed; the rest of `target` is left as it was.
    pub(crate) fn consume_range(&mut self, target: &mut [T], start: usize, count: usize)
        requires
            old(self).wf(),
            start + count <= old(target)@.len(),
            count <= old(self).pending().len(),
        ensures
            final(self).wf(),
            final(self).samples() == old(self).samples(),
            final(self).position() == old(self).position() + count,
            final(target)@ == old(target)@.subrange(0, start as int) + old(self).pending().subrange(
                0,
                count as int,
            ) + old(target)@.subrange(start + count, old(target)@.len() as int),
    {
        let ghost before = target@;
        let len = target.len();
        let total = self.underlier.len();
        let mut copied: usize = 0;
        while copied < count
            invariant
                self.wf(),
                self.samples() == old(self).samples(),
                self.position() == old(self).position(),
                copied <= count,
                start + count <= before.len(),
                len == before.len(),
                total == self.underlier@.len(),
                self.index + count <= self.underlier@.len(),
                count <= self.pending().len(),
                target@.len() == before.len(),
                forall|i: int|
                    0 <= i < before.len() ==> #[trigger] target@[i] == if start <= i < start
                        + copied {
                        self.samples()[self.position() + i - start]
                    } else {
                        before[i]
                    },
            decreases count - copied,
        {
            target[start + copied] = self.underlier[self.index + copied];
            copied = copied + 1;
        }
        self.index = self.index + count;
        assert(target@ =~= before.subrange(0, start as int) + old(self).pending().subrange(
            0,
            count as int,
        ) + before.subrange(start + count, before.len() as int));
    }

    /// Fills the whole of `target` with the next pending samples and marks
    /// them consumed.
    pub fn consume_into(&mut self, target: &mut [T])
        requires
            old(self).wf(),
            old(target)@.len() <= old(self).pending().len(),
        ensures
            final(self).wf(),
            final(self).samples() == old(self).samples(),
            final(self).position() == old(self).position() + old(target)@.len(),
            final(self).pending().len() == old(self).pending().len() - old(target)@.len(),
            final(target)@ == old(self).pending().subrange(0, old(target)@.len() as int),
    {
        let n = target.len();
        self.consume_range(target, 0, n);
        assert(target@ =~= old(self).pending().subrange(0, n as int));
    }
}

} // verus!
