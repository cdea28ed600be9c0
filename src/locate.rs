use vstd::prelude::*;

use crate::cstring::{cstr_length, is_cstr_len};
use crate::error::MemError;
use vstd::string::StringSliceAdditionalSpecFns;

verus! {

/// One process of an enumeration snapshot: its id and the zero-terminated
/// file name of its executable image.
pub struct ProcessEntry {
    pub pid: u32,
    pub exe_file: Vec<u8>,
}

/// One module of an enumeration snapshot: its base load address and its
/// zero-terminated name.
pub struct ModuleEntry {
    pub base: u64,
    pub module: Vec<u8>,
}

/// The zero-terminated string at the start of `buf` is exactly `name`.
pub open spec fn cstr_names(buf: Seq<u8>, name: Seq<u8>) -> bool {
    is_cstr_len(buf, name.len()) && buf.subrange(0, name.len() as int) == name
}

/// Whether the zero-terminated string at the start of `buf` is exactly
/// `name`, byte for byte.
pub fn cstr_matches(buf: &[u8], name: &[u8]) -> (r: bool)
    ensures
        r == cstr_names(buf@, name@),
{
    let n = cstr_length(buf);
    if n != name.len() {
        proof {
            if cstr_names(buf@, name@) {
                lemma_cstr_len_unique(buf@, n as nat, name@.len());
            }
        }
        return false;
    }
    let mut i: usize = 0;
    while i < n
        invariant
            n == name@.len(),
            n <= buf@.len(),
            i <= n,
            forall|j: int| 0 <= j < i ==> buf@[j] == name@[j],
        decreases n - i,
    {
        if buf[i] != name[i] {
            assert(buf@.subrange(0, n as int)[i as int] != name@[i as int]);
            return false;
        }
        i = i + 1;
    }
    assert(buf@.subrange(0, n as int) =~= name@);
    true
}

proof fn lemma_cstr_len_unique(b: Seq<u8>, m: nat, n: nat)
    requires
        is_cstr_len(b, m),
        is_cstr_len(b, n),
    ensures
        m == n,
{
    if m < n {
        assert(b[m as int] != 0);
    } else if n < m {
        assert(b[n as int] != 0);
    }
}

/// The id of the first process, in snapshot order, whose image file name is
/// exactly `image`; `NotFound` where there is none.
pub fn pid_from_image(entries: &Vec<ProcessEntry>, image: &str) -> (r: Result<u32, MemError>)
    ensures
        match r {
            Ok(pid) => exists|i: int|
                0 <= i < entries@.len() && cstr_names(entries@[i].exe_file@, image.spec_bytes())
                    && entries@[i].pid == pid && forall|j: int|
                    0 <= j < i ==> !cstr_names(#[trigger] entries@[j].exe_file@, image.spec_bytes()),
            Err(e) => e == MemError::NotFound && forall|i: int|
                0 <= i < entries@.len() ==> !cstr_names(#[trigger] entries@[i].exe_file@, image.spec_bytes()),
        },
{
    let name = image.as_bytes();
    let mut i: usize = 0;
    while i < entries.len()
        invariant
            i <= entries@.len(),
            name@ == image.spec_bytes(),
            forall|j: int| 0 <= j < i ==> !cstr_names(#[trigger] entries@[j].exe_file@, name@),
        decreases entries@.len() - i,
    {
        if cstr_matches(entries[i].exe_file.as_slice(), name) {
            return Ok(entries[i].pid);
        }
        i = i + 1;
    }
    Err(MemError::NotFound)
}

/// The base address of the first module, in snapshot order, whose name is
/// exactly `module_name`; `NotFound` where there is none.
pub fn modaddress_from_modname(entries: &Vec<ModuleEntry>, module_name: &str) -> (r: Result<u64, MemError>)
    ensures
        match r {
            Ok(base) => exists|i: int|
                0 <= i < entries@.len() && cstr_names(entries@[i].module@, module_name.spec_bytes())
                    && entries@[i].base == base && forall|j: int|
                    0 <= j < i ==> !cstr_names(#[trigger] entries@[j].module@, module_name.spec_bytes()),
            Err(e) => e == MemError::NotFound && forall|i: int|
                0 <= i < entries@.len() ==> !cstr_names(#[trigger] entries@[i].module@, module_name.spec_bytes()),
        },
{
    let name = module_name.as_bytes();
    let mut i: usize = 0;
    while i < entries.len()
        invariant
            i <= entries@.len(),
            name@ == module_name.spec_bytes(),
            forall|j: int| 0 <= j < i ==> !cstr_names(#[trigger] entries@[j].module@, name@),
        decreases entries@.len() - i,
    {
        if cstr_matches(entries[i].module.as_slice(), name) {
            return Ok(entries[i].base);
        }
        i = i + 1;
    }
    Err(MemError::NotFound)
}

/// Accepts the window handle that a lookup by title gave only where the
/// system confirms that it is a window; `NotFound` otherwise.
pub fn window_handle_from_title(found: usize, is_window: bool) -> (r: Result<usize, MemError>)
    ensures
        is_window ==> r == Ok::<usize, MemError>(found),
        !is_window ==> r == Err::<usize, MemError>(MemError::NotFound),
{
    if is_window {
        Ok(found)
    } else {
        Err(MemError::NotFound)
    }
}

/// The process id owning a window, given only where the handle refers to a
/// live window; `InvalidHandle` otherwise.
pub fn pid_from_window_handle(is_window: bool, owner_pid: u32) -> (r: Result<u32, MemError>)
    ensures
        is_window ==> r == Ok::<u32, MemError>(owner_pid),
        !is_window ==> r == Err::<u32, MemError>(MemError::InvalidHandle),
{
    if is_window {
        Ok(owner_pid)
    } else {
        Err(MemError::InvalidHandle)
    }
}

} // verus!
