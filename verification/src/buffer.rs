use vstd::prelude::*;

verus! {

pub const EMPTY_BYTE: u8 = 0;

/// A byte buffer with a fixed capacity and a write position. Its view is the
/// sequence of the bytes appended so far.
pub struct Buffer<T> {
    curr_pos: usize,
    buffer_size: usize,
    buffer_arr: Vec<T>,
}

impl Buffer<u8> {
    /// The write position lies within the storage, and the storage within
    /// the capacity.
    pub closed spec fn wf(&self) -> bool {
        self.curr_pos <= self.buffer_arr@.len() <= self.buffer_size
    }

    /// The bytes appended so far, in order.
    pub closed spec fn view(&self) -> Seq<u8> {
        self.buffer_arr@.take(self.curr_pos as int)
    }

    /// The largest number of bytes the buffer can hold.
    pub closed spec fn capacity(&self) -> nat {
        self.buffer_size as nat
    }

    /// What `can_array_be_appended` answers: whether `array_size` more bytes
    /// would bring the buffer exactly to its capacity.
    pub open spec fn fills_exactly(&self, array_size: nat) -> bool {
        self@.len() + array_size == self.capacity()
    }

    /// The contents after `bytes` were appended one by one until the buffer
    /// was full: as many of them as there was room for.
    pub open spec fn appended(&self, bytes: Seq<u8>) -> Seq<u8> {
        if self@.len() + bytes.len() <= self.capacity() {
            self@ + bytes
        } else {
            self@ + bytes.take(self.capacity() - self@.len())
        }
    }

    pub fn new(buff_size: usize) -> (buffer: Box<Buffer<u8>>)
        ensures
            buffer.wf(),
            buffer@ == Seq::<u8>::empty(),
            buffer.capacity() == buff_size,
    {
        let buffer = Box::new(
            Buffer { curr_pos: 0, buffer_size: buff_size, buffer_arr: vec![EMPTY_BYTE; buff_size] },
        );
        assert(buffer@ =~= Seq::<u8>::empty());
        buffer
    }

    pub fn new_unbound() -> (buffer: Box<Buffer<u8>>)
        ensures
            buffer.wf(),
            buffer@ == Seq::<u8>::empty(),
            buffer.capacity() == usize::MAX,
    {
        let buffer = Box::new(Buffer { curr_pos: 0, buffer_size: usize::MAX, buffer_arr: Vec::new() });
        assert(buffer@ =~= Seq::<u8>::empty());
        buffer
    }

    /// Appends one byte, unless the buffer is full.
    pub fn append_byte(&mut self, byte: u8) -> (res: Result<(), &'static str>)
        requires
            old(self).wf(),
        ensures
            final(self).wf(),
            final(self).capacity() == old(self).capacity(),
            old(self)@.len() < old(self).capacity() ==> res is Ok && final(self)@ == old(self)@.push(
                byte,
            ),
            old(self)@.len() >= old(self).capacity() ==> res is Err && final(self)@ == old(self)@,
            res is Err ==> res->Err_0@ == "Not enough space in buffer"@,
    {
        if self.curr_pos == self.buffer_size {
            return Err("Not enough space in buffer");
        }
        if self.buffer_arr.len() == self.curr_pos {
            self.buffer_arr.push(byte)
        } else {
            self.buffer_arr.set(self.curr_pos, byte);
        }
        self.curr_pos += 1;
        assert(self@ =~= old(self)@.push(byte));
        Ok(())
    }

    /// Whether `array_size` more bytes would fill the buffer exactly.
    pub fn can_array_be_appended(&self, array_size: usize) -> (fills: bool)
        requires
            self.wf(),
        ensures
            fills == self.fills_exactly(array_size as nat),
    {
        array_size == self.buffer_size - self.curr_pos
    }

    /// Appends the bytes of a slice. An array that would fill the buffer
    /// exactly is refused and nothing is written; one that is too long is
    /// written as far as there is room, and then refused.
    pub fn append_u8_array(&mut self, u8_arr: &[u8]) -> (res: Result<(), &'static str>)
        requires
            old(self).wf(),
        ensures
            final(self).wf(),
            final(self).capacity() == old(self).capacity(),
            res is Ok <==> old(self)@.len() + u8_arr@.len() < old(self).capacity(),
            old(self).fills_exactly(u8_arr@.len()) ==> final(self)@ == old(self)@,
            !old(self).fills_exactly(u8_arr@.len()) ==> final(self)@ == old(self).appended(u8_arr@),
            res is Err ==> res->Err_0@ == "Not enough space in buffer"@,
    {
        if self.can_array_be_appended(u8_arr.len()) {
            return Err("Not enough space in buffer");
        }
        let n: usize = u8_arr.len();
        let mut i: usize = 0;
        while i < n
            invariant
                self.wf(),
                self.capacity() == old(self).capacity(),
                n == u8_arr@.len(),
                i <= n,
                old(self)@.len() + i <= old(self).capacity(),
                self@ == old(self)@ + u8_arr@.take(i as int),
            decreases n - i,
        {
            match self.append_byte(u8_arr[i]) {
                Ok(()) => {},
                Err(e) => {
                    assert(u8_arr@.take(i as int) == u8_arr@.take(old(self).capacity() - old(self)@.len()));
                    return Err(e);
                },
            }
            assert(u8_arr@.take(i as int).push(u8_arr@[i as int]) =~= u8_arr@.take(i + 1));
            assert(self@ =~= old(self)@ + u8_arr@.take(i + 1));
            i += 1;
        }
        assert(u8_arr@.take(n as int) =~= u8_arr@);
        Ok(())
    }

    /// Appends the bytes of a vector, under the rules of `append_u8_array`.
    pub fn append_vec8_array(&mut self, vec8_arr: &Vec<u8>) -> (res: Result<(), &'static str>)
        requires
            old(self).wf(),
        ensures
            final(self).wf(),
            final(self).capacity() == old(self).capacity(),
            res is Ok <==> old(self)@.len() + vec8_arr@.len() < old(self).capacity(),
            old(self).fills_exactly(vec8_arr@.len()) ==> final(self)@ == old(self)@,
            !old(self).fills_exactly(vec8_arr@.len()) ==> final(self)@ == old(self).appended(
                vec8_arr@,
            ),
            res is Err ==> res->Err_0@ == "Not enough space in buffer"@,
    {
        self.append_u8_array(vec8_arr.as_slice())
    }

    /// The bytes appended so far, as a vector.
    pub fn get_arr(self) -> (arr: Vec<u8>)
        requires
            self.wf(),
        ensures
            arr@ == self@,
    {
        let mut arr: Vec<u8> = Vec::new();
        let mut i: usize = 0;
        while i < self.curr_pos
            invariant
                self.wf(),
                i <= self.curr_pos,
                arr@ == self.buffer_arr@.take(i as int),
            decreases self.curr_pos - i,
        {
            arr.push(self.buffer_arr[i]);
            assert(arr@ =~= self.buffer_arr@.take(i + 1));
            i += 1;
        }
        arr
    }
}

} // verus!
