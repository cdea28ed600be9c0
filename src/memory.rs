use vstd::prelude::*;

use crate::error::MemError;
use crate::plain::Plain;
use vstd::slice::slice_subrange;

verus! {

/// A capability to read and write one target process's memory. Once
/// released, every transfer planned through it is refused.
pub struct ProcessHandle {
    raw: usize,
    pid: u32,
    open: bool,
}

impl ProcessHandle {
    pub closed spec fn is_open(&self) -> bool {
        self.open
    }

    pub closed spec fn raw_spec(&self) -> usize {
        self.raw
    }

    pub closed spec fn pid_spec(&self) -> u32 {
        self.pid
    }

    /// The same handle after it has been released.
    pub closed spec fn released(&self) -> ProcessHandle {
        ProcessHandle { open: false, ..*self }
    }

    pub fn is_released(&self) -> (r: bool)
        ensures
            r == !self.is_open(),
    {
        !self.open
    }

    /// The operating system's handle value.
    pub fn raw(&self) -> (r: usize)
        ensures
            r == self.raw_spec(),
    {
        self.raw
    }

    /// The process the handle was opened on.
    pub fn pid(&self) -> (r: u32)
        ensures
            r == self.pid_spec(),
    {
        self.pid
    }

    /// Marks the handle released and hands back the operating system's handle
    /// value, which the caller closes. A second release fails, so the value
    /// is handed out for closing exactly once.
    pub fn release(&mut self) -> (r: Result<usize, MemError>)
        ensures
            old(self).is_open() ==> r == Ok::<usize, MemError>(old(self).raw_spec()),
            !old(self).is_open() ==> r == Err::<usize, MemError>(MemError::HandleClosed),
            *final(self) == old(self).released(),
            !final(self).is_open(),
            final(self).raw_spec() == old(self).raw_spec(),
            final(self).pid_spec() == old(self).pid_spec(),
    {
        if self.open {
            self.open = false;
            Ok(self.raw)
        } else {
            Err(MemError::HandleClosed)
        }
    }
}

/// Wraps the handle value that opening process `process_id` gave. Zero, and
/// the all-ones value that stands for an invalid handle, mean that the
/// operating system refused.
pub fn proc_handle_from_pid(process_id: u32, raw: usize) -> (r: Result<ProcessHandle, MemError>)
    ensures
        (raw == 0 || raw == usize::MAX) <==> r == Err::<ProcessHandle, MemError>(
            MemError::PermissionDenied,
        ),
        !(raw == 0 || raw == usize::MAX) ==> r is Ok,
        r is Ok ==> r->Ok_0.is_open() && r->Ok_0.raw_spec() == raw && r->Ok_0.pid_spec()
            == process_id,
{
    if raw == 0 || raw == usize::MAX {
        Err(MemError::PermissionDenied)
    } else {
        Ok(ProcessHandle { raw, pid: process_id, open: true })
    }
}

/// A read to perform: `len` bytes at `address` through `handle`.
#[derive(Debug, Clone, Copy, PartialEq, Eq, Structural)]
pub struct ReadRequest {
    pub handle: usize,
    pub address: u64,
    pub len: usize,
}

/// A write to perform: `bytes` at `address` through `handle`.
pub struct WriteRequest {
    pub handle: usize,
    pub address: u64,
    pub bytes: Vec<u8>,
}

/// What the operating system did with a read.
pub enum Transfer {
    /// It refused the read.
    Denied,
    /// It copied these bytes.
    Moved(Vec<u8>),
}

/// What the operating system did with a write.
pub enum Written {
    /// It refused the write.
    Denied,
    /// It copied this many bytes.
    Moved(usize),
}

/// The read planned for `len` bytes at `address`: refused on a released
/// handle, and where the address just past the range is not a 64-bit
/// address.
pub open spec fn read_plan(h: ProcessHandle, address: u64, len: usize) -> Result<(u64, usize), MemError> {
    if !h.is_open() {
        Err(MemError::HandleClosed)
    } else if address + len > u64::MAX {
        Err(MemError::AddressInvalid)
    } else {
        Ok((address, len))
    }
}

/// The write planned for `bytes` at `address`, refused as a read would be.
pub open spec fn write_plan(h: ProcessHandle, address: u64, bytes: Seq<u8>) -> Result<(u64, Seq<u8>), MemError> {
    if !h.is_open() {
        Err(MemError::HandleClosed)
    } else if address + bytes.len() > u64::MAX {
        Err(MemError::AddressInvalid)
    } else {
        Ok((address, bytes))
    }
}

/// Plans a read of `len` bytes at `address`.
pub fn plan_read(h: &ProcessHandle, address: u64, len: usize) -> (r: Result<ReadRequest, MemError>)
    ensures
        match r {
            Ok(q) => read_plan(*h, address, len) == Ok::<(u64, usize), MemError>((q.address, q.len))
                && q.handle == h.raw_spec(),
            Err(e) => read_plan(*h, address, len) == Err::<(u64, usize), MemError>(e),
        },
{
    if !h.open {
        Err(MemError::HandleClosed)
    } else if len as u64 > u64::MAX - address {
        Err(MemError::AddressInvalid)
    } else {
        Ok(ReadRequest { handle: h.raw, address, len })
    }
}

/// Plans a write of `bytes` at `address`.
fn plan_write(h: &ProcessHandle, address: u64, bytes: Vec<u8>) -> (r: Result<WriteRequest, MemError>)
    ensures
        match r {
            Ok(q) => write_plan(*h, address, bytes@) == Ok::<(u64, Seq<u8>), MemError>(
                (q.address, q.bytes@),
            ) && q.handle == h.raw_spec(),
            Err(e) => write_plan(*h, address, bytes@) == Err::<(u64, Seq<u8>), MemError>(e),
        },
{
    if !h.open {
        Err(MemError::HandleClosed)
    } else if bytes.len() as u64 > u64::MAX - address {
        Err(MemError::AddressInvalid)
    } else {
        Ok(WriteRequest { handle: h.raw, address, bytes })
    }
}

/// Checks what came back from a read: a refusal is `AddressInvalid`, a byte
/// count other than the one asked for is `ShortTransfer`.
pub fn finish_read(req: &ReadRequest, got: Transfer) -> (r: Result<Vec<u8>, MemError>)
    ensures
        match got {
            Transfer::Denied => r == Err::<Vec<u8>, MemError>(MemError::AddressInvalid),
            Transfer::Moved(b) => if b@.len() == req.len {
                r is Ok && r->Ok_0@ == b@
            } else {
                r == Err::<Vec<u8>, MemError>(MemError::ShortTransfer)
            },
        },
{
    match got {
        Transfer::Denied => Err(MemError::AddressInvalid),
        Transfer::Moved(b) => if b.len() == req.len {
            Ok(b)
        } else {
            Err(MemError::ShortTransfer)
        },
    }
}

/// Checks what came back from a write, as `finish_read` does.
pub fn finish_write(req: &WriteRequest, done: Written) -> (r: Result<(), MemError>)
    ensures
        match done {
            Written::Denied => r == Err::<(), MemError>(MemError::AddressInvalid),
            Written::Moved(n) => if n == req.bytes@.len() {
                r == Ok::<(), MemError>(())
            } else {
                r == Err::<(), MemError>(MemError::ShortTransfer)
            },
        },
{
    match done {
        Written::Denied => Err(MemError::AddressInvalid),
        Written::Moved(n) => if n == req.bytes.len() {
            Ok(())
        } else {
            Err(MemError::ShortTransfer)
        },
    }
}

/// Plans the read of one `T` at `address`.
pub fn plan_read_value<T: Plain>(h: &ProcessHandle, address: u64) -> (r: Result<ReadRequest, MemError>)
    ensures
        match r {
            Ok(q) => read_plan(*h, address, q.len) == Ok::<(u64, usize), MemError>(
                (q.address, q.len),
            ) && q.handle == h.raw_spec() && q.len == T::width(),
            Err(e) => exists|n: usize| n == T::width() && read_plan(*h, address, n) == Err::<(u64, usize), MemError>(e),
        },
{
    let n = T::byte_width();
    plan_read(h, address, n)
}

/// The `T` that a read planned by `plan_read_value` produced.
pub fn finish_read_value<T: Plain>(req: &ReadRequest, got: Transfer) -> (r: Result<T, MemError>)
    requires
        req.len == T::width(),
    ensures
        match got {
            Transfer::Denied => r == Err::<T, MemError>(MemError::AddressInvalid),
            Transfer::Moved(b) => if b@.len() == req.len {
                r == Ok::<T, MemError>(T::from_image(b@))
            } else {
                r == Err::<T, MemError>(MemError::ShortTransfer)
            },
        },
{
    match finish_read(req, got) {
        Ok(b) => Ok(T::decode(b.as_slice())),
        Err(e) => Err(e),
    }
}

/// Plans the write of `value` at `address`: its byte image.
pub fn plan_write_value<T: Plain>(h: &ProcessHandle, address: u64, value: T) -> (r: Result<WriteRequest, MemError>)
    ensures
        match r {
            Ok(q) => write_plan(*h, address, T::image(value)) == Ok::<(u64, Seq<u8>), MemError>(
                (q.address, q.bytes@),
            ) && q.handle == h.raw_spec(),
            Err(e) => write_plan(*h, address, T::image(value)) == Err::<(u64, Seq<u8>), MemError>(
                e,
            ),
        },
{
    let bytes = value.encode();
    plan_write(h, address, bytes)
}

/// The byte image of a sequence of values, densely packed in order.
pub open spec fn array_image<T: Plain>(values: Seq<T>) -> Seq<u8>
    decreases values.len(),
{
    if values.len() == 0 {
        Seq::empty()
    } else {
        array_image(values.drop_last()) + T::image(values.last())
    }
}

/// The `count` values whose images lie one after another in `b`: element
/// `i` from bytes `i * width` up to `(i + 1) * width`.
pub open spec fn array_from_image<T: Plain>(b: Seq<u8>, count: nat) -> Seq<T> {
    Seq::new(count, |i: int| T::from_image(b.subrange(i * T::width(), (i + 1) * T::width())))
}

/// Plans the read of `count` values of `T` starting at `address`, as one
/// block of `count * width` bytes.
pub fn plan_read_array<T: Plain>(h: &ProcessHandle, address: u64, count: usize) -> (r: Result<ReadRequest, MemError>)
    ensures
        count * T::width() > usize::MAX ==> r == Err::<ReadRequest, MemError>(
            if h.is_open() { MemError::AddressInvalid } else { MemError::HandleClosed },
        ),
        count * T::width() <= usize::MAX ==> match r {
            Ok(q) => read_plan(*h, address, q.len) == Ok::<(u64, usize), MemError>(
                (q.address, q.len),
            ) && q.handle == h.raw_spec() && q.len == count * T::width(),
            Err(e) => exists|n: usize| n == count * T::width() && read_plan(*h, address, n) == Err::<(u64, usize), MemError>(e),
        },
{
    let w = T::byte_width();
    if count > usize::MAX / w {
        proof {
            assert(count * w > usize::MAX) by (nonlinear_arith)
                requires
                    count > usize::MAX / w,
                    w >= 1,
            ;
        }
        if !h.open {
            return Err(MemError::HandleClosed);
        }
        return Err(MemError::AddressInvalid);
    }
    proof {
        assert(count * w <= usize::MAX) by (nonlinear_arith)
            requires
                count <= usize::MAX / w,
                w >= 1,
        ;
    }
    plan_read(h, address, count * w)
}

/// The values that a read planned by `plan_read_array` produced.
pub fn finish_read_array<T: Plain>(req: &ReadRequest, count: usize, got: Transfer) -> (r: Result<Vec<T>, MemError>)
    requires
        req.len == count * T::width(),
    ensures
        match got {
            Transfer::Denied => r == Err::<Vec<T>, MemError>(MemError::AddressInvalid),
            Transfer::Moved(b) => if b@.len() == req.len {
                r is Ok && r->Ok_0@ == array_from_image::<T>(b@, count as nat)
            } else {
                r == Err::<Vec<T>, MemError>(MemError::ShortTransfer)
            },
        },
{
    let ghost g = got;
    match finish_read(req, got) {
        Ok(b) => {
            let w = T::byte_width();
            let mut out: Vec<T> = Vec::new();
            let mut i: usize = 0;
            while i < count
                invariant
                    b@.len() == count * w,
                    req.len == count * w,
                    w == T::width(),
                    1 <= w <= 8,
                    i <= count,
                    out@ == array_from_image::<T>(b@, count as nat).subrange(0, i as int),
                decreases count - i,
            {
                proof {
                    assert((i + 1) * w <= count * w) by (nonlinear_arith)
                        requires
                            i < count,
                    ;
                    assert((i + 1) * w == i * w + w) by (nonlinear_arith);
                }
                let start = i * w;
                let piece = slice_subrange(b.as_slice(), start, start + w);
                let v = T::decode(piece);
                out.push(v);
                i = i + 1;
                assert(out@ =~= array_from_image::<T>(b@, count as nat).subrange(0, i as int));
            }
            assert(out@ =~= array_from_image::<T>(b@, count as nat));
            Ok(out)
        },
        Err(e) => Err(e),
    }
}

/// Plans the write of `values` at `address`, as one contiguous block.
pub fn plan_write_array<T: Plain>(h: &ProcessHandle, address: u64, values: &Vec<T>) -> (r: Result<WriteRequest, MemError>)
    requires
        values@.len() * T::width() <= usize::MAX,
    ensures
        match r {
            Ok(q) => write_plan(*h, address, array_image(values@)) == Ok::<(u64, Seq<u8>), MemError>(
                (q.address, q.bytes@),
            ) && q.handle == h.raw_spec(),
            Err(e) => write_plan(*h, address, array_image(values@)) == Err::<(u64, Seq<u8>), MemError>(
                e,
            ),
        },
{
    let mut bytes: Vec<u8> = Vec::new();
    let mut i: usize = 0;
    while i < values.len()
        invariant
            i <= values@.len(),
            bytes@ == array_image(values@.subrange(0, i as int)),
        decreases values@.len() - i,
    {
        let piece = values[i].encode();
        let mut piece_mut = piece;
        bytes.append(&mut piece_mut);
        proof {
            let s = values@.subrange(0, i + 1);
            assert(s.drop_last() =~= values@.subrange(0, i as int));
        }
        i = i + 1;
    }
    assert(values@.subrange(0, values@.len() as int) =~= values@);
    plan_write(h, address, bytes)
}

/// Target memory after `bytes` were written at `address`.
pub open spec fn store(mem: Map<int, u8>, address: int, bytes: Seq<u8>) -> Map<int, u8> {
    Map::new(
        |a: int| mem.dom().contains(a) || (address <= a < address + bytes.len()),
        |a: int|
            if address <= a < address + bytes.len() {
                bytes[a - address]
            } else {
                mem[a]
            },
    )
}

/// The `len` bytes of target memory from `address` on.
pub open spec fn fetch(mem: Map<int, u8>, address: int, len: nat) -> Seq<u8> {
    Seq::new(len, |i: int| mem[address + i])
}

proof fn lemma_fetch_stored(mem: Map<int, u8>, address: int, bytes: Seq<u8>)
    ensures
        fetch(store(mem, address, bytes), address, bytes.len()) == bytes,
{
    assert(fetch(store(mem, address, bytes), address, bytes.len()) =~= bytes);
}

/// Writing a value and then reading a value of the same type at the same
/// address gives the value back: the read fetches the written image, and
/// that image decodes to the value.
pub proof fn law_write_then_read<T: Plain>(mem: Map<int, u8>, address: int, value: T)
    ensures
        fetch(store(mem, address, T::image(value)), address, T::width()).len() == T::width(),
        T::from_image(fetch(store(mem, address, T::image(value)), address, T::width())) == value,
{
    T::lemma_image_round_trip(value);
    lemma_fetch_stored(mem, address, T::image(value));
}

proof fn lemma_array_image_len<T: Plain>(values: Seq<T>)
    ensures
        array_image(values).len() == values.len() * T::width(),
    decreases values.len(),
{
    if values.len() > 0 {
        lemma_array_image_len(values.drop_last());
        T::lemma_image_round_trip(values.last());
        assert(values.len() * T::width() == (values.len() - 1) * T::width() + T::width())
            by (nonlinear_arith);
    }
}

proof fn lemma_array_image_piece<T: Plain>(values: Seq<T>, i: int)
    requires
        0 <= i < values.len(),
    ensures
        array_image(values).subrange(i * T::width(), (i + 1) * T::width()) == T::image(values[i]),
    decreases values.len(),
{
    let w = T::width();
    let init = values.drop_last();
    lemma_array_image_len(init);
    T::lemma_image_round_trip(values.last());
    assert(array_image(values) == array_image(init) + T::image(values.last()));
    assert((i + 1) * w == i * w + w) by (nonlinear_arith);
    if i == values.len() - 1 {
        assert(i * w == init.len() * w);
        assert(array_image(values).subrange(i * w, (i + 1) * w) =~= T::image(values[i]));
    } else {
        lemma_array_image_piece(init, i);
        assert((i + 1) * w <= init.len() * w) by (nonlinear_arith)
            requires
                i + 1 <= init.len(),
        ;
        assert(i * w >= 0) by (nonlinear_arith)
            requires
                i >= 0,
        ;
        assert(array_image(values).subrange(i * w, (i + 1) * w) =~= array_image(init).subrange(
            i * w,
            (i + 1) * w,
        ));
    }
}

/// Writing an array and then reading as many values of the same type at
/// the same address gives the array back, element for element.
pub proof fn law_write_array_then_read<T: Plain>(mem: Map<int, u8>, address: int, values: Seq<T>)
    ensures
        fetch(store(mem, address, array_image(values)), address, values.len() * T::width()).len()
            == values.len() * T::width(),
        array_from_image::<T>(
            fetch(store(mem, address, array_image(values)), address, values.len() * T::width()),
            values.len(),
        ) == values,
{
    lemma_array_image_len(values);
    lemma_fetch_stored(mem, address, array_image(values));
    let b = array_image(values);
    assert forall|i: int| 0 <= i < values.len() implies #[trigger] array_from_image::<T>(b, values.len())[i] == values[i] by {
        lemma_array_image_piece(values, i);
        T::lemma_image_round_trip(values[i]);
    }
    assert(array_from_image::<T>(b, values.len()) =~= values);
}

/// A released handle refuses every read and every write.
pub proof fn law_released_handle_refuses(h: ProcessHandle, address: u64, len: usize, bytes: Seq<u8>)
    ensures
        read_plan(h.released(), address, len) == Err::<(u64, usize), MemError>(MemError::HandleClosed),
        write_plan(h.released(), address, bytes) == Err::<(u64, Seq<u8>), MemError>(
            MemError::HandleClosed,
        ),
{
}

} // verus!
