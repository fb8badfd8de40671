//! Luau buffers: fixed-size mutable byte arrays, and the cursor that reads,
//! writes and seeks over one.

use vstd::prelude::*;
use crate::error::Error;
use crate::state::Lua;
use crate::value::ObjectId;

verus! {

/// The largest buffer the VM allocates (1 GiB).
pub const MAX_BUFFER_SIZE: usize = 1073741824;

/// The bytes of one buffer as the VM keeps them: a fixed-size array whose
/// length never changes and never exceeds [`MAX_BUFFER_SIZE`].
#[derive(Debug)]
pub struct ByteArray {
    pub(crate) data: Vec<u8>,
}

impl ByteArray {
    #[verifier::type_invariant]
    spec fn inv(self) -> bool {
        self.data@.len() <= MAX_BUFFER_SIZE
    }
}

impl View for ByteArray {
    type V = Seq<u8>;

    closed spec fn view(&self) -> Seq<u8> {
        self.data@
    }
}

/// A handle to a Luau buffer of one VM. Every copy of the handle refers to
/// the same bytes, which the VM's state holds under the buffer's identity
/// (see [`Lua::spec_buffers`]).
#[derive(Debug, Clone, Copy, PartialEq, Eq, Structural)]
pub struct Buffer {
    pub(crate) id: ObjectId,
}

/// The bytes of `data` after writing `bytes` at `offset`.
pub open spec fn spec_write(data: Seq<u8>, offset: int, bytes: Seq<u8>) -> Seq<u8> {
    data.subrange(0, offset) + bytes + data.subrange(offset + bytes.len(), data.len() as int)
}

/// The VM's allocation error for a buffer that is too large.
pub open spec fn spec_too_big_error(e: Error) -> bool {
    e matches Error::RuntimeError(m) && m@ == "memory allocation error: block too big"@
}

/// The bytes of a buffer of `size` zero bytes; sizes above
/// [`MAX_BUFFER_SIZE`] are refused with the VM's allocation error.
pub fn create_buffer_with_capacity(size: usize) -> (r: Result<ByteArray, Error>)
    ensures
        r is Ok <==> size <= MAX_BUFFER_SIZE,
        r matches Ok(b) ==> b@ == Seq::new(size as nat, |i: int| 0u8),
        r matches Err(e) ==> spec_too_big_error(e),
{
    if size > MAX_BUFFER_SIZE {
        return Err(Error::runtime("memory allocation error: block too big"));
    }
    let mut data: Vec<u8> = Vec::with_capacity(size);
    let mut i: usize = 0;
    while i < size
        invariant
            i <= size,
            data@ == Seq::new(i as nat, |j: int| 0u8),
        decreases size - i,
    {
        data.push(0u8);
        assert(data@ =~= Seq::new((i + 1) as nat, |j: int| 0u8));
        i += 1;
    }
    Ok(ByteArray { data })
}

/// The bytes of a buffer holding a copy of `data`; refused like
/// [`create_buffer_with_capacity`] when it is too large.
pub fn create_buffer(data: &[u8]) -> (r: Result<ByteArray, Error>)
    ensures
        r is Ok <==> data.len() <= MAX_BUFFER_SIZE,
        r matches Ok(b) ==> b@ == data@,
        r matches Err(e) ==> spec_too_big_error(e),
{
    let mut buffer = create_buffer_with_capacity(data.len())?;
    if data.len() != 0 {
        buffer.write_bytes(0, data);
    }
    assert(buffer@ =~= data@);
    Ok(buffer)
}

impl ByteArray {
    /// A copy of the bytes.
    pub fn to_vec(&self) -> (r: Vec<u8>)
        ensures
            r@ == self@,
    {
        self.data.clone()
    }

    /// The length of the buffer.
    pub fn len(&self) -> (r: usize)
        ensures
            r == self@.len(),
            r <= MAX_BUFFER_SIZE,
    {
        proof { use_type_invariant(self); }
        self.data.len()
    }

    /// Whether the buffer has no bytes.
    pub fn is_empty(&self) -> (r: bool)
        ensures
            r == (self@.len() == 0),
    {
        self.len() == 0
    }

    /// The buffer's bytes.
    pub fn as_slice(&self) -> (r: &[u8])
        ensures
            r@ == self@,
    {
        self.data.as_slice()
    }

    /// The `count` bytes starting at the 0-based `offset`.
    pub fn read_bytes(&self, offset: usize, count: usize) -> (r: Vec<u8>)
        requires
            offset + count <= self@.len(),
        ensures
            r@ == self@.subrange(offset as int, offset + count),
    {
        let l = self.data.len();
        let mut out: Vec<u8> = Vec::with_capacity(count);
        let mut i: usize = 0;
        while i < count
            invariant
                i <= count,
                l == self.data@.len(),
                offset + count <= self.data@.len(),
                out@ == self.data@.subrange(offset as int, offset + i),
            decreases count - i,
        {
            out.push(self.data[offset + i]);
            assert(self.data@.subrange(offset as int, offset + i + 1) =~= self.data@.subrange(
                offset as int,
                offset + i,
            ).push(self.data@[offset + i]));
            i += 1;
        }
        out
    }

    /// Writes `bytes` at the 0-based `offset`.
    pub fn write_bytes(&mut self, offset: usize, bytes: &[u8])
        requires
            offset <= old(self)@.len(),
            bytes@.len() <= old(self)@.len() - offset,
        ensures
            final(self)@ == spec_write(old(self)@, offset as int, bytes@),
            final(self)@.len() == old(self)@.len(),
    {
        proof { use_type_invariant(&*self); }
        let mut data: Vec<u8> = Vec::new();
        core::mem::swap(&mut data, &mut self.data);
        let ghost old_data = data@;
        let l = data.len();
        let mut i: usize = 0;
        while i < bytes.len()
            invariant
                i <= bytes.len(),
                l == old_data.len(),
                offset + bytes.len() <= old_data.len(),
                data@.len() == old_data.len(),
                forall|j: int| 0 <= j < offset ==> data@[j] == old_data[j],
                forall|j: int| offset <= j < offset + i ==> data@[j] == bytes@[j - offset],
                forall|j: int| offset + i <= j < old_data.len() ==> data@[j] == old_data[j],
            decreases bytes.len() - i,
        {
            data.set(offset + i, bytes[i]);
            i += 1;
        }
        assert(data@ =~= spec_write(old_data, offset as int, bytes@));
        core::mem::swap(&mut data, &mut self.data);
    }

}

impl Buffer {
    /// The identity of the buffer.
    pub closed spec fn spec_id(&self) -> u64 {
        self.id.0
    }

    /// The bytes of the buffer in the state of `lua`.
    pub open spec fn spec_bytes(&self, lua: &Lua) -> Seq<u8> {
        lua.spec_buffers()[self.spec_id()]
    }

    /// Whether `lua` holds this buffer.
    pub open spec fn spec_in(&self, lua: &Lua) -> bool {
        lua.spec_buffers().contains_key(self.spec_id())
    }

    /// The handle of the buffer with identity `id`.
    pub(crate) fn from_id(id: ObjectId) -> (r: Buffer)
        ensures
            r.spec_id() == id.0,
    {
        Buffer { id }
    }

    /// The identity of the buffer.
    pub fn to_pointer(&self) -> (r: ObjectId)
        ensures
            r.0 == self.spec_id(),
    {
        self.id
    }

    /// A copy of the buffer's bytes.
    pub fn to_vec(&self, lua: &Lua) -> (r: Vec<u8>)
        requires
            lua.wf(),
            self.spec_in(lua),
        ensures
            r@ == self.spec_bytes(lua),
    {
        lua.buffer_array(self.id.0).to_vec()
    }

    /// The length of the buffer.
    pub fn len(&self, lua: &Lua) -> (r: usize)
        requires
            lua.wf(),
            self.spec_in(lua),
        ensures
            r == self.spec_bytes(lua).len(),
            r <= MAX_BUFFER_SIZE,
    {
        lua.buffer_array(self.id.0).len()
    }

    /// Whether the buffer has no bytes.
    pub fn is_empty(&self, lua: &Lua) -> (r: bool)
        requires
            lua.wf(),
            self.spec_in(lua),
        ensures
            r == (self.spec_bytes(lua).len() == 0),
    {
        self.len(lua) == 0
    }

    /// The buffer's bytes.
    pub fn as_slice<'a>(&self, lua: &'a Lua) -> (r: &'a [u8])
        requires
            lua.wf(),
            self.spec_in(lua),
        ensures
            r@ == self.spec_bytes(lua),
    {
        lua.buffer_array(self.id.0).as_slice()
    }

    /// The `count` bytes starting at the 0-based `offset`.
    pub fn read_bytes(&self, lua: &Lua, offset: usize, count: usize) -> (r: Vec<u8>)
        requires
            lua.wf(),
            self.spec_in(lua),
            offset + count <= self.spec_bytes(lua).len(),
        ensures
            r@ == self.spec_bytes(lua).subrange(offset as int, offset + count),
    {
        lua.buffer_array(self.id.0).read_bytes(offset, count)
    }

    /// Writes `bytes` at the 0-based `offset`; every handle to the buffer
    /// sees the new bytes.
    pub fn write_bytes(&self, lua: &mut Lua, offset: usize, bytes: &[u8])
        requires
            old(lua).wf(),
            self.spec_in(old(lua)),
            offset + bytes@.len() <= self.spec_bytes(old(lua)).len(),
        ensures
            final(lua).wf(),
            final(lua).spec_buffers() == old(lua).spec_buffers().insert(
                self.spec_id(),
                spec_write(self.spec_bytes(old(lua)), offset as int, bytes@),
            ),
            final(lua).spec_next_object() == old(lua).spec_next_object(),
            final(lua).spec_same_stores(old(lua)),
    {
        lua.write_buffer(self.id.0, offset, bytes);
    }

    /// A cursor over the buffer, positioned at its start.
    pub fn cursor(self) -> (r: BufferCursor)
        ensures
            r.buffer == self,
            r.position == 0,
    {
        BufferCursor { buffer: self, position: 0 }
    }
}

/// Writing through one handle is seen through every handle to the same
/// buffer: after a write at `offset`, any handle with the same identity
/// reads the written bytes there and the old bytes elsewhere.
pub proof fn law_handles_share_bytes(before: Lua, after: Lua, a: Buffer, b: Buffer, offset: int, bytes: Seq<u8>)
    requires
        a.spec_id() == b.spec_id(),
        a.spec_in(&before),
        0 <= offset,
        offset + bytes.len() <= a.spec_bytes(&before).len(),
        after.spec_buffers() == before.spec_buffers().insert(
            a.spec_id(),
            spec_write(a.spec_bytes(&before), offset, bytes),
        ),
    ensures
        b.spec_in(&after),
        b.spec_bytes(&after).subrange(offset, offset + bytes.len()) == bytes,
        forall|j: int|
            0 <= j < b.spec_bytes(&before).len() && !(offset <= j < offset + bytes.len())
                ==> b.spec_bytes(&after)[j] == b.spec_bytes(&before)[j],
{
    law_write_then_read(a.spec_bytes(&before), offset, bytes);
}

/// Reading the bytes just written at an offset gives them back, and the
/// bytes outside the written range are unchanged.
pub proof fn law_write_then_read(data: Seq<u8>, offset: int, bytes: Seq<u8>)
    requires
        0 <= offset,
        offset + bytes.len() <= data.len(),
    ensures
        spec_write(data, offset, bytes).len() == data.len(),
        spec_write(data, offset, bytes).subrange(offset, offset + bytes.len()) == bytes,
        forall|j: int|
            0 <= j < data.len() && !(offset <= j < offset + bytes.len())
                ==> spec_write(data, offset, bytes)[j] == data[j],
{
    assert(spec_write(data, offset, bytes).subrange(offset, offset + bytes.len()) =~= bytes);
}

/// The bytes after the writes `writes` (each an offset and the bytes
/// written there), one after the other.
pub open spec fn spec_writes(data: Seq<u8>, writes: Seq<(int, Seq<u8>)>) -> Seq<u8>
    decreases writes.len(),
{
    if writes.len() == 0 {
        data
    } else {
        spec_write(spec_writes(data, writes.drop_last()), writes.last().0, writes.last().1)
    }
}

/// The length of a buffer is fixed when it is made: no sequence of writes,
/// each within the buffer, changes it.
pub proof fn law_writes_keep_length(data: Seq<u8>, writes: Seq<(int, Seq<u8>)>)
    requires
        forall|i: int| 0 <= i < writes.len() ==> 0 <= (#[trigger] writes[i]).0 && writes[i].0 + writes[i].1.len()
            <= data.len(),
    ensures
        spec_writes(data, writes).len() == data.len(),
    decreases writes.len(),
{
    if writes.len() > 0 {
        let front = writes.drop_last();
        assert forall|i: int| 0 <= i < front.len() implies 0 <= (#[trigger] front[i]).0 && front[i].0 + front[i].1.len()
            <= data.len() by {
            assert(front[i] == writes[i]);
        }
        law_writes_keep_length(data, front);
        let w = writes[writes.len() - 1];
        law_write_then_read(spec_writes(data, front), w.0, w.1);
    }
}

/// Where a seek is measured from.
#[derive(Debug, Clone, Copy, PartialEq, Eq, Structural)]
pub enum SeekFrom {
    /// From the start of the buffer.
    Start(u64),
    /// From the end of the buffer.
    End(i64),
    /// From the current position.
    Current(i64),
}

/// Why a seek was refused.
#[derive(Debug, Clone, Copy, PartialEq, Eq, Structural)]
pub enum SeekError {
    /// The target position is negative.
    NegativePosition,
    /// The target position is past the end of the buffer.
    BeyondEnd,
}

/// The target of a seek, or `None` when it leaves the buffer on the
/// negative side. A start offset above `i64::MAX` reads as negative.
pub open spec fn spec_seek_target(len: int, position: int, pos: SeekFrom) -> int {
    match pos {
        SeekFrom::Start(o) => if o > i64::MAX { -1 } else { o as int },
        SeekFrom::End(o) => len + o,
        SeekFrom::Current(o) => position + o,
    }
}

/// An adaptor that reads, writes and seeks over a buffer; the read and
/// write operations never fail.
#[derive(Debug)]
pub struct BufferCursor {
    pub buffer: Buffer,
    pub position: usize,
}

impl BufferCursor {
    /// The well-formedness of a cursor over a buffer of `lua`: its position
    /// lies within the buffer.
    pub open spec fn wf(&self, lua: &Lua) -> bool {
        self.buffer.spec_in(lua) && self.position <= self.buffer.spec_bytes(lua).len()
    }

    /// Reads up to `max` bytes from the current position and advances past them.
    pub fn read(&mut self, lua: &Lua, max: usize) -> (r: Vec<u8>)
        requires
            lua.wf(),
            old(self).wf(lua),
        ensures
            final(self).wf(lua),
            final(self).buffer == old(self).buffer,
            r@.len() == if max < old(self).buffer.spec_bytes(lua).len() - old(self).position { max as int } else {
                old(self).buffer.spec_bytes(lua).len() - old(self).position
            },
            r@ == old(self).buffer.spec_bytes(lua).subrange(old(self).position as int, old(self).position + r@.len()),
            final(self).position == old(self).position + r@.len(),
    {
        let len = self.buffer.len(lua);
        if self.position == len {
            return Vec::new();
        }
        let n = if max < len - self.position { max } else { len - self.position };
        let out = self.buffer.read_bytes(lua, self.position, n);
        self.position = self.position + n;
        out
    }

    /// Writes as much of `bytes` as fits from the current position and
    /// advances past it; returns how many bytes were written. Every handle
    /// to the buffer sees the new bytes.
    pub fn write(&mut self, lua: &mut Lua, bytes: &[u8]) -> (r: usize)
        requires
            old(lua).wf(),
            old(self).wf(old(lua)),
        ensures
            final(lua).wf(),
            final(self).wf(final(lua)),
            final(self).buffer == old(self).buffer,
            r == if bytes@.len() < old(self).buffer.spec_bytes(old(lua)).len() - old(self).position { bytes@.len() } else {
                (old(self).buffer.spec_bytes(old(lua)).len() - old(self).position) as nat
            },
            final(lua).spec_buffers() == old(lua).spec_buffers().insert(
                old(self).buffer.spec_id(),
                spec_write(old(self).buffer.spec_bytes(old(lua)), old(self).position as int, bytes@.subrange(0, r as int)),
            ),
            final(self).position == old(self).position + r,
            final(lua).spec_next_object() == old(lua).spec_next_object(),
            final(lua).spec_same_stores(old(lua)),
    {
        let len = self.buffer.len(lua);
        if self.position == len {
            proof {
                let old_bytes = old(self).buffer.spec_bytes(old(lua));
                assert(old_bytes =~= spec_write(old_bytes, old(self).position as int, bytes@.subrange(0, 0)));
                assert(lua.spec_buffers() =~= old(lua).spec_buffers().insert(old(self).buffer.spec_id(), old_bytes));
            }
            return 0;
        }
        let n = if bytes.len() < len - self.position { bytes.len() } else { len - self.position };
        let prefix = crate::string::copy_bytes(bytes);
        let mut head: Vec<u8> = Vec::with_capacity(n);
        let mut i: usize = 0;
        while i < n
            invariant
                i <= n,
                n <= prefix@.len(),
                head@ == prefix@.subrange(0, i as int),
            decreases n - i,
        {
            head.push(prefix[i]);
            assert(prefix@.subrange(0, i + 1) =~= prefix@.subrange(0, i as int).push(prefix@[i as int]));
            i += 1;
        }
        self.buffer.write_bytes(lua, self.position, head.as_slice());
        self.position = self.position + n;
        n
    }

    /// Flushing a buffer cursor does nothing.
    pub fn flush(&mut self)
        ensures
            *final(self) == *old(self),
    {
    }

    /// Moves the position; refuses a negative target and one past the end.
    pub fn seek(&mut self, lua: &Lua, pos: SeekFrom) -> (r: Result<u64, SeekError>)
        requires
            lua.wf(),
            old(self).wf(lua),
            i64::MIN <= spec_seek_target(old(self).buffer.spec_bytes(lua).len() as int, old(self).position as int, pos)
                <= i64::MAX,
        ensures
            final(self).wf(lua),
            final(self).buffer == old(self).buffer,
            ({
                let t = spec_seek_target(old(self).buffer.spec_bytes(lua).len() as int, old(self).position as int, pos);
                &&& t < 0 ==> r == Err::<u64, SeekError>(SeekError::NegativePosition) && final(self).position == old(self).position
                &&& 0 <= t && t > old(self).buffer.spec_bytes(lua).len() ==> r == Err::<u64, SeekError>(SeekError::BeyondEnd)
                    && final(self).position == old(self).position
                &&& 0 <= t <= old(self).buffer.spec_bytes(lua).len() ==> r == Ok::<u64, SeekError>(t as u64) && final(self).position == t
            }),
    {
        let len = self.buffer.len(lua);
        let target: i128 = match pos {
            SeekFrom::Start(o) => if o > 9223372036854775807u64 { -1 } else { o as i128 },
            SeekFrom::End(o) => len as i128 + o as i128,
            SeekFrom::Current(o) => self.position as i128 + o as i128,
        };
        if target < 0 {
            return Err(SeekError::NegativePosition);
        }
        if target > len as i128 {
            return Err(SeekError::BeyondEnd);
        }
        self.position = target as usize;
        Ok(target as u64)
    }
}

} // verus!
