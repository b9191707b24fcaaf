//! Integer buffers that programs fill on the host.

use vstd::prelude::*;

verus! {

#[derive(Debug)]
pub struct IntBuffer {
    pub data: Vec<i32>,
}

impl IntBuffer {
    /// A buffer of zeros.
    pub fn malus_buffer_i32(len: usize) -> (r: Self)
        ensures
            r.data@ == Seq::new(len as nat, |i: int| 0i32),
    {
        let data: Vec<i32> = vec![0;len];
        assert(data@ =~= Seq::new(len as nat, |i: int| 0i32));
        IntBuffer { data }
    }

    pub fn malus_buffer_get_i32(&self, idx: usize) -> (r: i64)
        requires
            idx < self.data@.len(),
        ensures
            r == self.data@[idx as int],
    {
        self.data[idx] as i64
    }

    /// Sets an element to the low half of a number.
    pub fn malus_buffer_set_i32(&mut self, idx: usize, val: i64)
        requires
            idx < old(self).data@.len(),
        ensures
            final(self).data@ == old(self).data@.update(idx as int, val as i32),
    {
        #[verifier::truncate]
        let v: i32 = val as i32;
        self.data.set(idx, v);
    }

    /// Shape of the tensor that the buffer is frozen into.
    pub fn frozen_shape(&self) -> (r: Vec<usize>)
        ensures
            r@ == seq![self.data@.len() as usize],
    {
        let mut v: Vec<usize> = Vec::new();
        v.push(self.data.len());
        assert(v@ =~= seq![self.data@.len() as usize]);
        v
    }
}

} // verus!
