use vstd::prelude::*;

use crate::error::MemError;
use crate::memory::{plan_read, ProcessHandle, ReadRequest, Transfer};
use vstd::slice::slice_subrange;
use vstd::string::StringSliceAdditionalSpecFns;

verus! {

/// `n` is the length of the zero-terminated string at the start of `b`: no
/// zero byte comes before index `n`, and one stands there unless the
/// buffer ends first.
pub open spec fn is_cstr_len(b: Seq<u8>, n: nat) -> bool {
    &&& n <= b.len()
    &&& forall|i: int| 0 <= i < n ==> b[i] != 0
    &&& n < b.len() ==> b[n as int] == 0
}

/// The length of the zero-terminated string at the start of `buf`, or the
/// whole buffer where it holds no zero byte.
pub fn cstr_length(buf: &[u8]) -> (r: usize)
    ensures
        is_cstr_len(buf@, r as nat),
{
    let mut i: usize = 0;
    while i < buf.len()
        invariant
            i <= buf@.len(),
            forall|j: int| 0 <= j < i ==> buf@[j] != 0,
        decreases buf@.len() - i,
    {
        if buf[i] == 0 {
            return i;
        }
        i = i + 1;
    }
    i
}

/// The text that bytes read as UTF-8 give, each invalid sequence replaced
/// by U+FFFD.
pub uninterp spec fn utf8_lossy(b: Seq<u8>) -> Seq<char>;

/// Relies on `String::from_utf8_lossy`: the text depends on the bytes
/// alone.
#[verifier::external_body]
fn decode_utf8_lossy(b: &[u8]) -> (r: String)
    ensures
        r@ == utf8_lossy(b@),
{
    String::from_utf8_lossy(b).into_owned()
}

/// The zero-terminated string at the start of `buf` (the whole buffer where
/// it holds no zero byte), read as UTF-8.
pub fn cstr_to_str(buf: &[u8]) -> (r: String)
    ensures
        exists|n: nat| is_cstr_len(buf@, n) && r@ == utf8_lossy(buf@.subrange(0, n as int)),
{
    let n = cstr_length(buf);
    let text = slice_subrange(buf, 0, n);
    decode_utf8_lossy(text)
}

/// The first `length` bytes of `s` followed by a terminating zero byte.
pub fn str_to_cstr(s: &str, length: usize) -> (r: Vec<u8>)
    requires
        length <= s.spec_bytes().len(),
    ensures
        r@ == s.spec_bytes().subrange(0, length as int).push(0),
{
    let bytes = s.as_bytes();
    let mut r: Vec<u8> = Vec::new();
    let mut i: usize = 0;
    while i < length
        invariant
            i <= length <= bytes@.len(),
            bytes@ == s.spec_bytes(),
            r@ == bytes@.subrange(0, i as int),
        decreases length - i,
    {
        r.push(bytes[i]);
        i = i + 1;
        assert(r@ =~= bytes@.subrange(0, i as int));
    }
    r.push(0);
    r
}

/// How a scan for a string's terminator ends, when `mem(a)` is the byte at
/// address `a` and bytes before index `i` were found nonzero: with the
/// index of the first zero byte, with `UnterminatedString` when none comes
/// before index `cap`, or with `AddressInvalid` when the next byte lies
/// beyond 64-bit addresses.
pub open spec fn scan_from(mem: spec_fn(u64) -> u8, start: u64, i: nat, cap: nat) -> Result<nat, MemError>
    decreases cap - i,
{
    if i >= cap {
        Err(MemError::UnterminatedString)
    } else if start + i + 1 > u64::MAX {
        Err(MemError::AddressInvalid)
    } else if mem((start + i) as u64) == 0 {
        Ok(i)
    } else {
        scan_from(mem, start, i + 1, cap)
    }
}

/// How many single-byte reads the scan of `scan_from` makes.
pub open spec fn scan_reads(mem: spec_fn(u64) -> u8, start: u64, i: nat, cap: nat) -> nat
    decreases cap - i,
{
    if i >= cap || start + i + 1 > u64::MAX {
        0
    } else if mem((start + i) as u64) == 0 {
        1
    } else {
        1 + scan_reads(mem, start, i + 1, cap)
    }
}

/// What a string scan wants next.
#[derive(Debug, Clone, Copy, PartialEq, Eq, Structural)]
pub enum ScanStep {
    /// Read one byte as this request says and hand it to `StrScan::feed`.
    Read(ReadRequest),
    /// The terminator was found: the string has this many bytes, and this
    /// request reads them in one block.
    Found(usize, ReadRequest),
}

/// The length-discovery pass over a zero-terminated string in the target,
/// one byte at a time, bounded by a scan limit.
pub struct StrScan {
    handle: usize,
    start: u64,
    length: usize,
    cap: usize,
}

impl StrScan {
    pub closed spec fn start_spec(&self) -> u64 {
        self.start
    }

    /// How many nonzero bytes were found so far.
    pub closed spec fn length_spec(&self) -> nat {
        self.length as nat
    }

    pub closed spec fn cap_spec(&self) -> nat {
        self.cap as nat
    }

    pub closed spec fn handle_spec(&self) -> usize {
        self.handle
    }

    pub closed spec fn wf(&self) -> bool {
        &&& self.length < self.cap
        &&& self.start + self.length + 1 <= u64::MAX
    }

    /// Takes the byte that the last requested read produced and says what
    /// comes next, exactly as `scan_from` goes on from the byte read. Once
    /// `h`, the handle the scan started on, is released, the scan asks for
    /// nothing more and fails with `HandleClosed`.
    pub fn feed(&mut self, h: &ProcessHandle, got: Transfer) -> (r: Result<ScanStep, MemError>)
        requires
            old(self).wf(),
            h.raw_spec() == old(self).handle_spec(),
        ensures
            final(self).wf(),
            final(self).start_spec() == old(self).start_spec(),
            final(self).cap_spec() == old(self).cap_spec(),
            final(self).handle_spec() == old(self).handle_spec(),
            final(self).length_spec() <= old(self).length_spec() + 1,
            !h.is_open() ==> r == Err::<ScanStep, MemError>(MemError::HandleClosed) && *final(self)
                == *old(self),
            h.is_open() ==> match got {
                Transfer::Denied => r == Err::<ScanStep, MemError>(MemError::AddressInvalid),
                Transfer::Moved(b) => if b@.len() != 1 {
                    r == Err::<ScanStep, MemError>(MemError::ShortTransfer)
                } else {
                    &&& forall|mem: spec_fn(u64) -> u8|
                        mem((old(self).start_spec() + old(self).length_spec()) as u64) == b@[0]
                            ==> #[trigger] scan_from(
                            mem,
                            old(self).start_spec(),
                            old(self).length_spec(),
                            old(self).cap_spec(),
                        ) == match r {
                            Ok(ScanStep::Read(_)) => scan_from(
                                mem,
                                final(self).start_spec(),
                                final(self).length_spec(),
                                final(self).cap_spec(),
                            ),
                            Ok(ScanStep::Found(n, _)) => Ok::<nat, MemError>(n as nat),
                            Err(e) => Err::<nat, MemError>(e),
                        } && scan_reads(
                            mem,
                            old(self).start_spec(),
                            old(self).length_spec(),
                            old(self).cap_spec(),
                        ) == 1 + match r {
                            Ok(ScanStep::Read(_)) => scan_reads(
                                mem,
                                final(self).start_spec(),
                                final(self).length_spec(),
                                final(self).cap_spec(),
                            ),
                            _ => 0,
                        }
                    &&& r matches Ok(ScanStep::Read(q)) ==> {
                        &&& q.handle == old(self).handle_spec()
                        &&& q.address == final(self).start_spec() + final(self).length_spec()
                        &&& q.len == 1
                        &&& final(self).length_spec() == old(self).length_spec() + 1
                    }
                    &&& r matches Ok(ScanStep::Found(n, q)) ==> {
                        &&& q.handle == old(self).handle_spec()
                        &&& q.address == old(self).start_spec()
                        &&& q.len == n
                        &&& n < old(self).cap_spec()
                    }
                },
            },
    {
        if h.is_released() {
            return Err(MemError::HandleClosed);
        }
        let b = match got {
            Transfer::Denied => {
                return Err(MemError::AddressInvalid);
            },
            Transfer::Moved(b) => b,
        };
        if b.len() != 1 {
            return Err(MemError::ShortTransfer);
        }
        if b[0] == 0 {
            return Ok(
                ScanStep::Found(
                    self.length,
                    ReadRequest { handle: self.handle, address: self.start, len: self.length },
                ),
            );
        }
        proof {
            reveal_with_fuel(scan_from, 2);
            reveal_with_fuel(scan_reads, 2);
        }
        if self.length + 1 >= self.cap {
            return Err(MemError::UnterminatedString);
        }
        if self.start + self.length as u64 + 1 >= u64::MAX {
            return Err(MemError::AddressInvalid);
        }
        self.length = self.length + 1;
        Ok(ScanStep::Read(ReadRequest { handle: self.handle, address: self.start + self.length as u64, len: 1 }))
    }
}

/// Starts measuring the zero-terminated string at `address`, looking at no
/// more than `cap` bytes, and asks for its first byte. Fed with what the
/// target's memory holds, the scan ends as `scan_from` from index zero does.
pub fn read_strlen(h: &ProcessHandle, address: u64, cap: usize) -> (r: Result<(StrScan, ReadRequest), MemError>)
    ensures
        !h.is_open() ==> r == Err::<(StrScan, ReadRequest), MemError>(MemError::HandleClosed),
        h.is_open() && cap == 0 ==> r == Err::<(StrScan, ReadRequest), MemError>(
            MemError::UnterminatedString,
        ),
        h.is_open() && cap > 0 && address + 1 > u64::MAX ==> r == Err::<(StrScan, ReadRequest), MemError>(
            MemError::AddressInvalid,
        ),
        h.is_open() && cap > 0 && address + 1 <= u64::MAX ==> r is Ok,
        r matches Ok((scan, q)) ==> {
            &&& scan.wf()
            &&& scan.start_spec() == address
            &&& scan.length_spec() == 0
            &&& scan.cap_spec() == cap
            &&& scan.handle_spec() == h.raw_spec()
            &&& q.handle == h.raw_spec()
            &&& q.address == address
            &&& q.len == 1
        },
{
    if h.is_released() {
        return Err(MemError::HandleClosed);
    }
    if cap == 0 {
        return Err(MemError::UnterminatedString);
    }
    let q = plan_read(h, address, 1)?;
    Ok((StrScan { handle: h.raw(), start: address, length: 0, cap }, q))
}

/// Where no zero byte stands among the first `cap` bytes, the scan fails
/// with `UnterminatedString`, or with `AddressInvalid` where those bytes run
/// past 64-bit addresses; it never runs on.
pub proof fn law_unterminated(mem: spec_fn(u64) -> u8, start: u64, cap: nat)
    requires
        forall|i: nat| i < cap ==> #[trigger] mem((start + i) as u64) != 0,
    ensures
        scan_from(mem, start, 0, cap) == if cap == 0 || start + cap <= u64::MAX {
            Err::<nat, MemError>(MemError::UnterminatedString)
        } else {
            Err::<nat, MemError>(MemError::AddressInvalid)
        },
{
    lemma_unterminated_from(mem, start, 0, cap);
}

proof fn lemma_unterminated_from(mem: spec_fn(u64) -> u8, start: u64, i: nat, cap: nat)
    requires
        forall|j: nat| j < cap ==> #[trigger] mem((start + j) as u64) != 0,
    ensures
        i >= cap || start + cap <= u64::MAX ==> scan_from(mem, start, i, cap) == Err::<nat, MemError>(
            MemError::UnterminatedString,
        ),
        i < cap && start + cap > u64::MAX ==> scan_from(mem, start, i, cap) == Err::<nat, MemError>(
            MemError::AddressInvalid,
        ),
    decreases cap - i,
{
    if i < cap && start + i + 1 <= u64::MAX {
        assert(mem((start + i) as u64) != 0);
        lemma_unterminated_from(mem, start, i + 1, cap);
    }
}

/// Whatever memory holds, the scan reads at most `cap` bytes one at a time.
pub proof fn law_scan_reads_bounded(mem: spec_fn(u64) -> u8, start: u64, i: nat, cap: nat)
    ensures
        scan_reads(mem, start, i, cap) + i <= if i <= cap { cap } else { i },
    decreases cap - i,
{
    if i < cap && start + i + 1 <= u64::MAX && mem((start + i) as u64) != 0 {
        law_scan_reads_bounded(mem, start, i + 1, cap);
    }
}

/// The scan finds the first zero byte when it lies within the limit.
pub proof fn law_scan_finds_terminator(mem: spec_fn(u64) -> u8, start: u64, n: nat, cap: nat)
    requires
        n < cap,
        start + n + 1 <= u64::MAX,
        mem((start + n) as u64) == 0,
        forall|i: nat| i < n ==> #[trigger] mem((start + i) as u64) != 0,
    ensures
        scan_from(mem, start, 0, cap) == Ok::<nat, MemError>(n),
{
    lemma_finds_from(mem, start, 0, n, cap);
}

/// Two memories that agree up to and including a string's terminator give
/// the same length, whatever follows the terminator.
pub proof fn law_scan_ignores_trailing(
    mem1: spec_fn(u64) -> u8,
    mem2: spec_fn(u64) -> u8,
    start: u64,
    n: nat,
    cap: nat,
)
    requires
        n < cap,
        start + n + 1 <= u64::MAX,
        forall|i: nat| i <= n ==> #[trigger] mem1((start + i) as u64) == mem2((start + i) as u64),
        mem1((start + n) as u64) == 0,
        forall|i: nat| i < n ==> #[trigger] mem1((start + i) as u64) != 0,
    ensures
        scan_from(mem1, start, 0, cap) == Ok::<nat, MemError>(n),
        scan_from(mem2, start, 0, cap) == Ok::<nat, MemError>(n),
{
    assert(mem1((start + n) as u64) == mem2((start + n) as u64));
    assert forall|i: nat| i < n implies #[trigger] mem2((start + i) as u64) != 0 by {
        assert(mem1((start + i) as u64) == mem2((start + i) as u64));
    }
    lemma_finds_from(mem1, start, 0, n, cap);
    lemma_finds_from(mem2, start, 0, n, cap);
}

proof fn lemma_finds_from(mem: spec_fn(u64) -> u8, start: u64, i: nat, n: nat, cap: nat)
    requires
        i <= n < cap,
        start + n + 1 <= u64::MAX,
        mem((start + n) as u64) == 0,
        forall|j: nat| j < n ==> #[trigger] mem((start + j) as u64) != 0,
    ensures
        scan_from(mem, start, i, cap) == Ok::<nat, MemError>(n),
    decreases n - i,
{
    if i < n {
        assert(mem((start + i) as u64) != 0);
        lemma_finds_from(mem, start, i + 1, n, cap);
    }
}

} // verus!
