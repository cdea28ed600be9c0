//! Pointer-chain resolution and typed access to another process's memory,
//! written without I/O: the library plans each transfer, checks what the
//! operating system handed back, and decides what comes next.

mod chain;
mod cstring;
mod error;
mod locate;
mod memory;
mod plain;

pub use chain::{
    deref_count, follow, law_null_link, law_single_offset, link_address, resolve_link,
    resolve_ptr_offsets, resolve_reads, resolve_spec, ChainStep, ChainWalk, PointerWidth,
    Resolution,
};
pub use cstring::{
    cstr_length, cstr_to_str, is_cstr_len, law_scan_finds_terminator, law_scan_ignores_trailing,
    law_scan_reads_bounded, law_unterminated, read_strlen, scan_from, scan_reads, str_to_cstr,
    utf8_lossy, ScanStep, StrScan,
};
pub use error::MemError;
pub use locate::{
    cstr_matches, cstr_names, modaddress_from_modname, pid_from_image, pid_from_window_handle,
    window_handle_from_title, ModuleEntry, ProcessEntry,
};
pub use memory::{
    array_from_image, array_image, fetch, finish_read, finish_read_array, finish_read_value,
    finish_write, law_released_handle_refuses, law_write_array_then_read, law_write_then_read,
    plan_read, plan_read_array, plan_read_value, plan_write_array, plan_write_value,
    proc_handle_from_pid, read_plan, store, write_plan, ProcessHandle, ReadRequest, Transfer,
    WriteRequest, Written,
};
pub use plain::{decode_le, encode_le, le_bytes, le_value, pow256, Plain};
