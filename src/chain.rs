use vstd::prelude::*;

use crate::error::MemError;
use crate::memory::{plan_read, ProcessHandle, ReadRequest, Transfer};
use crate::plain::{decode_le, le_value};

verus! {

/// Size of a pointer in the target process, known to the caller in advance.
#[derive(Debug, Clone, Copy, PartialEq, Eq, Structural)]
pub enum PointerWidth {
    Bits32,
    Bits64,
}

impl PointerWidth {
    pub open spec fn spec_bytes(&self) -> nat {
        match self {
            PointerWidth::Bits32 => 4,
            PointerWidth::Bits64 => 8,
        }
    }

    /// Number of bytes in one pointer.
    pub fn bytes(&self) -> (r: usize)
        ensures
            r == self.spec_bytes(),
    {
        match self {
            PointerWidth::Bits32 => 4,
            PointerWidth::Bits64 => 8,
        }
    }
}

/// Where a pointer chain leads.
#[derive(Debug, Clone, Copy, PartialEq, Eq, Structural)]
pub enum Resolution {
    /// The chain ends at this address.
    At(u64),
    /// A dereference along the chain read a null pointer: what the chain
    /// points to is not there now.
    Null,
}

/// What a walk along a pointer chain wants next.
#[derive(Debug, Clone, Copy, PartialEq, Eq, Structural)]
pub enum ChainStep {
    /// Read a pointer as this request says and hand it to `ChainWalk::feed`.
    Read(ReadRequest),
    /// The walk is over.
    Done(Resolution),
}

/// Where the chain goes from a pointer stored at `addr`, with the offsets
/// `rest` still to apply, when `read(a)` is the pointer stored at `a`. Each
/// offset but the last is added to the pointer read and the sum is read in
/// turn; the last one is added to the final pointer. A null pointer ends
/// the chain with `Null` (as does running out of offsets, which a walk never
/// does); an address beyond 64 bits, or one whose pointer
/// would end beyond them, is `AddressInvalid`.
pub open spec fn follow(read: spec_fn(u64) -> u64, width: nat, addr: u64, rest: Seq<u64>) -> Result<Resolution, MemError>
    decreases rest.len(),
{
    let v = read(addr);
    if rest.len() == 0 || v == 0 {
        Ok(Resolution::Null)
    } else if v + rest[0] > u64::MAX {
        Err(MemError::AddressInvalid)
    } else if rest.len() == 1 {
        Ok(Resolution::At((v + rest[0]) as u64))
    } else if v + rest[0] + width > u64::MAX {
        Err(MemError::AddressInvalid)
    } else {
        follow(read, width, (v + rest[0]) as u64, rest.drop_first())
    }
}

/// The resolution of the chain that starts with the pointer stored at
/// `base + static_offset`.
pub open spec fn resolve_spec(
    read: spec_fn(u64) -> u64,
    width: nat,
    base: u64,
    static_offset: u64,
    offsets: Seq<u64>,
) -> Result<Resolution, MemError> {
    if base + static_offset + width > u64::MAX {
        Err(MemError::AddressInvalid)
    } else {
        follow(read, width, (base + static_offset) as u64, offsets)
    }
}

/// How many pointers resolving the chain reads: none where its start lies
/// beyond 64-bit addresses.
pub open spec fn resolve_reads(
    read: spec_fn(u64) -> u64,
    width: nat,
    base: u64,
    static_offset: u64,
    offsets: Seq<u64>,
) -> nat {
    if base + static_offset + width > u64::MAX {
        0
    } else {
        deref_count(read, width, (base + static_offset) as u64, offsets)
    }
}

/// The address of the `k`-th pointer that resolving the chain reads, if it
/// gets that far.
pub open spec fn resolve_link(
    read: spec_fn(u64) -> u64,
    width: nat,
    base: u64,
    static_offset: u64,
    offsets: Seq<u64>,
    k: nat,
) -> Option<u64> {
    if base + static_offset + width > u64::MAX {
        None
    } else {
        link_address(read, width, (base + static_offset) as u64, offsets, k)
    }
}

/// How many pointers the walk of `follow` reads.
pub open spec fn deref_count(read: spec_fn(u64) -> u64, width: nat, addr: u64, rest: Seq<u64>) -> nat
    decreases rest.len(),
{
    let v = read(addr);
    if rest.len() > 1 && v != 0 && v + rest[0] + width <= u64::MAX {
        1 + deref_count(read, width, (v + rest[0]) as u64, rest.drop_first())
    } else {
        1
    }
}

/// The address of the `k`-th pointer that the walk of `follow` reads, if it
/// gets that far.
pub open spec fn link_address(read: spec_fn(u64) -> u64, width: nat, addr: u64, rest: Seq<u64>, k: nat) -> Option<u64>
    decreases k,
{
    if k == 0 {
        Some(addr)
    } else {
        let v = read(addr);
        if rest.len() > 1 && v != 0 && v + rest[0] + width <= u64::MAX {
            link_address(read, width, (v + rest[0]) as u64, rest.drop_first(), (k - 1) as nat)
        } else {
            None
        }
    }
}

/// A walk along a pointer chain, one pointer read at a time.
pub struct ChainWalk {
    handle: usize,
    width: PointerWidth,
    pending: u64,
    offsets: Vec<u64>,
    next: usize,
}

impl ChainWalk {
    /// The address whose pointer is read next.
    pub closed spec fn pending_spec(&self) -> u64 {
        self.pending
    }

    /// The offsets not yet applied.
    pub closed spec fn rest_spec(&self) -> Seq<u64> {
        self.offsets@.subrange(self.next as int, self.offsets@.len() as int)
    }

    pub closed spec fn width_spec(&self) -> nat {
        self.width.spec_bytes()
    }

    pub closed spec fn handle_spec(&self) -> usize {
        self.handle
    }

    pub closed spec fn wf(&self) -> bool {
        &&& self.next < self.offsets@.len()
        &&& self.pending + self.width.spec_bytes() <= u64::MAX
    }

    /// Takes the bytes that the last requested read produced and says what
    /// comes next. Reading pointer `v` at the pending address moves the walk
    /// exactly as `follow` does: whatever the rest of memory holds, the
    /// chain's resolution from here is that of the new state, or the
    /// outcome returned. Once `h`, the handle the walk started on, is
    /// released, the walk asks for nothing more and fails with
    /// `HandleClosed`.
    pub fn feed(&mut self, h: &ProcessHandle, got: Transfer) -> (r: Result<ChainStep, MemError>)
        requires
            old(self).wf(),
            h.raw_spec() == old(self).handle_spec(),
        ensures
            final(self).wf(),
            final(self).width_spec() == old(self).width_spec(),
            final(self).handle_spec() == old(self).handle_spec(),
            !h.is_open() ==> r == Err::<ChainStep, MemError>(MemError::HandleClosed) && *final(self)
                == *old(self),
            h.is_open() ==> match got {
                Transfer::Denied => r == Err::<ChainStep, MemError>(MemError::AddressInvalid),
                Transfer::Moved(b) => if b@.len() != old(self).width_spec() {
                    r == Err::<ChainStep, MemError>(MemError::ShortTransfer)
                } else {
                    &&& forall|read: spec_fn(u64) -> u64|
                        read(old(self).pending_spec()) == le_value(b@) ==> {
                            &&& #[trigger] follow(
                                read,
                                old(self).width_spec(),
                                old(self).pending_spec(),
                                old(self).rest_spec(),
                            ) == match r {
                                Ok(ChainStep::Read(_)) => follow(
                                    read,
                                    final(self).width_spec(),
                                    final(self).pending_spec(),
                                    final(self).rest_spec(),
                                ),
                                Ok(ChainStep::Done(res)) => Ok::<Resolution, MemError>(res),
                                Err(e) => Err::<Resolution, MemError>(e),
                            }
                            &&& deref_count(
                                read,
                                old(self).width_spec(),
                                old(self).pending_spec(),
                                old(self).rest_spec(),
                            ) == 1 + match r {
                                Ok(ChainStep::Read(_)) => deref_count(
                                    read,
                                    final(self).width_spec(),
                                    final(self).pending_spec(),
                                    final(self).rest_spec(),
                                ),
                                _ => 0,
                            }
                        }
                    &&& r matches Ok(ChainStep::Read(q)) ==> {
                        &&& q.handle == final(self).handle_spec()
                        &&& q.address == final(self).pending_spec()
                        &&& q.len == final(self).width_spec()
                        &&& final(self).rest_spec() == old(self).rest_spec().drop_first()
                    }
                },
            },
    {
        if h.is_released() {
            return Err(MemError::HandleClosed);
        }
        let b = match got {
            Transfer::Denied => {
                return Err(MemError::AddressInvalid);
            },
            Transfer::Moved(b) => b,
        };
        let w = self.width.bytes();
        if b.len() != w {
            return Err(MemError::ShortTransfer);
        }
        let v = decode_le(b.as_slice());
        let ghost rest = self.rest_spec();
        proof {
            assert(rest[0] == self.offsets@[self.next as int]);
            assert(rest.drop_first() =~= self.offsets@.subrange(self.next + 1, self.offsets@.len() as int));
        }
        let off = self.offsets[self.next];
        let last = self.next == self.offsets.len() - 1;
        if v == 0 {
            return Ok(ChainStep::Done(Resolution::Null));
        }
        if off > u64::MAX - v {
            return Err(MemError::AddressInvalid);
        }
        let target = v + off;
        if last {
            return Ok(ChainStep::Done(Resolution::At(target)));
        }
        if w as u64 > u64::MAX - target {
            return Err(MemError::AddressInvalid);
        }
        self.pending = target;
        self.next = self.next + 1;
        Ok(ChainStep::Read(ReadRequest { handle: self.handle, address: target, len: w }))
    }
}

/// Starts resolving the pointer chain `ptr_offsets` from the pointer stored
/// at `static_addr + static_offset`, and asks for that first read. Fed with
/// what the target's memory holds, the walk reaches `resolve_spec`.
pub fn resolve_ptr_offsets(
    h: &ProcessHandle,
    width: PointerWidth,
    static_addr: u64,
    static_offset: u64,
    ptr_offsets: Vec<u64>,
) -> (r: Result<(ChainWalk, ReadRequest), MemError>)
    requires
        ptr_offsets@.len() > 0,
    ensures
        !h.is_open() ==> r == Err::<(ChainWalk, ReadRequest), MemError>(MemError::HandleClosed),
        h.is_open() && static_addr + static_offset + width.spec_bytes() > u64::MAX ==> r == Err::<
            (ChainWalk, ReadRequest),
            MemError,
        >(MemError::AddressInvalid),
        h.is_open() && static_addr + static_offset + width.spec_bytes() <= u64::MAX ==> r is Ok,
        r matches Ok((walk, q)) ==> {
            &&& walk.wf()
            &&& walk.pending_spec() == static_addr + static_offset
            &&& walk.rest_spec() == ptr_offsets@
            &&& walk.width_spec() == width.spec_bytes()
            &&& walk.handle_spec() == h.raw_spec()
            &&& q.handle == h.raw_spec()
            &&& q.address == walk.pending_spec()
            &&& q.len == width.spec_bytes()
            &&& forall|read: spec_fn(u64) -> u64|
                #[trigger] resolve_spec(read, width.spec_bytes(), static_addr, static_offset, ptr_offsets@)
                    == follow(read, walk.width_spec(), walk.pending_spec(), walk.rest_spec())
            &&& forall|read: spec_fn(u64) -> u64|
                #[trigger] resolve_reads(read, width.spec_bytes(), static_addr, static_offset, ptr_offsets@)
                    == deref_count(read, walk.width_spec(), walk.pending_spec(), walk.rest_spec())
        },
{
    if h.is_released() {
        return Err(MemError::HandleClosed);
    }
    if static_offset > u64::MAX - static_addr {
        return Err(MemError::AddressInvalid);
    }
    let start = static_addr + static_offset;
    let w = width.bytes();
    let q = plan_read(h, start, w)?;
    let walk = ChainWalk { handle: h.raw(), width, pending: start, offsets: ptr_offsets, next: 0 };
    assert(walk.rest_spec() =~= ptr_offsets@);
    Ok((walk, q))
}

/// A chain of one offset reads one pointer, at `base + static_offset`, and
/// adds the offset to it directly, unless that pointer is null. (Where the
/// pointer at the start, or the sum, lies beyond 64-bit addresses, the
/// chain is `AddressInvalid`, and nothing is read for the former.)
pub proof fn law_single_offset(read: spec_fn(u64) -> u64, width: PointerWidth, base: u64, static_offset: u64, off: u64)
    ensures
        resolve_reads(read, width.spec_bytes(), base, static_offset, seq![off]) == if base
            + static_offset + width.spec_bytes() > u64::MAX {
            0nat
        } else {
            1nat
        },
        resolve_spec(read, width.spec_bytes(), base, static_offset, seq![off]) == if base
            + static_offset + width.spec_bytes() > u64::MAX {
            Err::<Resolution, MemError>(MemError::AddressInvalid)
        } else {
            let v = read((base + static_offset) as u64);
            if v == 0 {
                Ok::<Resolution, MemError>(Resolution::Null)
            } else if v + off > u64::MAX {
                Err::<Resolution, MemError>(MemError::AddressInvalid)
            } else {
                Ok::<Resolution, MemError>(Resolution::At((v + off) as u64))
            }
        },
{
}

/// Once the `k`-th pointer read along the chain is null, the chain resolves
/// to `Null` after exactly `k + 1` reads: nothing is read through the null
/// pointer, and no later offset is added, the last one included.
pub proof fn law_null_link(
    read: spec_fn(u64) -> u64,
    width: nat,
    base: u64,
    static_offset: u64,
    offsets: Seq<u64>,
    k: nat,
)
    requires
        resolve_link(read, width, base, static_offset, offsets, k) is Some,
        read(resolve_link(read, width, base, static_offset, offsets, k)->Some_0) == 0,
    ensures
        resolve_spec(read, width, base, static_offset, offsets) == Ok::<Resolution, MemError>(
            Resolution::Null,
        ),
        resolve_reads(read, width, base, static_offset, offsets) == k + 1,
{
    lemma_null_link_from(read, width, (base + static_offset) as u64, offsets, k);
}

proof fn lemma_null_link_from(read: spec_fn(u64) -> u64, width: nat, addr: u64, rest: Seq<u64>, k: nat)
    requires
        link_address(read, width, addr, rest, k) is Some,
        read(link_address(read, width, addr, rest, k)->Some_0) == 0,
    ensures
        follow(read, width, addr, rest) == Ok::<Resolution, MemError>(Resolution::Null),
        deref_count(read, width, addr, rest) == k + 1,
    decreases k,
{
    if k > 0 {
        let v = read(addr);
        lemma_null_link_from(read, width, (v + rest[0]) as u64, rest.drop_first(), (k - 1) as nat);
    }
}

} // verus!
