use procmem::{
    cstr_length, cstr_matches, cstr_to_str, decode_le, encode_le, finish_read, finish_read_array,
    finish_read_value, finish_write, modaddress_from_modname, pid_from_image,
    pid_from_window_handle, plan_read, plan_read_array, plan_read_value, plan_write_array,
    plan_write_value, proc_handle_from_pid, read_strlen, resolve_ptr_offsets, str_to_cstr,
    window_handle_from_title, ChainStep, MemError, ModuleEntry, Plain, PointerWidth,
    ProcessEntry, ProcessHandle, ReadRequest, Resolution, ScanStep, Transfer, WriteRequest,
    Written,
};

/// A stand-in for a target process: `bytes` mapped from `base` on.
struct Target {
    base: u64,
    bytes: Vec<u8>,
    reads: usize,
}

impl Target {
    fn new(base: u64, size: usize) -> Target {
        Target { base, bytes: vec![0; size], reads: 0 }
    }

    fn serve(&mut self, q: &ReadRequest) -> Transfer {
        self.reads += 1;
        if q.address < self.base {
            return Transfer::Denied;
        }
        let start = (q.address - self.base) as usize;
        if start + q.len > self.bytes.len() {
            return Transfer::Denied;
        }
        Transfer::Moved(self.bytes[start..start + q.len].to_vec())
    }

    fn apply(&mut self, w: &WriteRequest) -> Written {
        if w.address < self.base {
            return Written::Denied;
        }
        let start = (w.address - self.base) as usize;
        if start + w.bytes.len() > self.bytes.len() {
            return Written::Denied;
        }
        self.bytes[start..start + w.bytes.len()].copy_from_slice(&w.bytes);
        Written::Moved(w.bytes.len())
    }

    fn put_u64(&mut self, address: u64, v: u64) {
        let start = (address - self.base) as usize;
        self.bytes[start..start + 8].copy_from_slice(&v.to_le_bytes());
    }

    fn put_u32(&mut self, address: u64, v: u32) {
        let start = (address - self.base) as usize;
        self.bytes[start..start + 4].copy_from_slice(&v.to_le_bytes());
    }
}

fn open_handle() -> ProcessHandle {
    proc_handle_from_pid(1234, 0x44).unwrap()
}

fn resolve(
    t: &mut Target,
    h: &ProcessHandle,
    width: PointerWidth,
    base: u64,
    static_offset: u64,
    offsets: Vec<u64>,
) -> Result<Resolution, MemError> {
    let (mut walk, mut q) = resolve_ptr_offsets(h, width, base, static_offset, offsets)?;
    loop {
        let got = t.serve(&q);
        match walk.feed(h, got)? {
            ChainStep::Read(next) => q = next,
            ChainStep::Done(r) => return Ok(r),
        }
    }
}

fn read_value<T: Plain>(t: &mut Target, h: &ProcessHandle, address: u64) -> Result<T, MemError> {
    let q = plan_read_value::<T>(h, address)?;
    let got = t.serve(&q);
    finish_read_value::<T>(&q, got)
}

fn write_value<T: Plain>(t: &mut Target, h: &ProcessHandle, address: u64, v: T) -> Result<(), MemError> {
    let w = plan_write_value(h, address, v)?;
    let done = t.apply(&w);
    finish_write(&w, done)
}

fn read_cstring(t: &mut Target, h: &ProcessHandle, address: u64, cap: usize) -> Result<Vec<u8>, MemError> {
    let (mut scan, mut q) = read_strlen(h, address, cap)?;
    loop {
        let got = t.serve(&q);
        match scan.feed(h, got)? {
            ScanStep::Read(next) => q = next,
            ScanStep::Found(_, bulk) => {
                let got = t.serve(&bulk);
                return finish_read(&bulk, got);
            }
        }
    }
}

#[test]
fn single_offset_chain_reads_once_and_adds() {
    let mut t = Target::new(0x1000, 0x100);
    t.put_u64(0x1010, 0x5000);
    let h = open_handle();
    let r = resolve(&mut t, &h, PointerWidth::Bits64, 0x1000, 0x10, vec![0x24]);
    assert_eq!(r, Ok(Resolution::At(0x5024)));
    assert_eq!(t.reads, 1);
}

#[test]
fn multi_level_chain_follows_each_pointer() {
    let mut t = Target::new(0x1000, 0x100);
    t.put_u32(0x1004, 0x1040);
    t.put_u32(0x1048, 0x1080);
    t.put_u32(0x1090, 0x2000);
    let h = open_handle();
    let r = resolve(&mut t, &h, PointerWidth::Bits32, 0x1000, 0x4, vec![0x8, 0x10, 0x1C]);
    assert_eq!(r, Ok(Resolution::At(0x201C)));
    assert_eq!(t.reads, 3);
}

#[test]
fn null_link_ends_chain_without_trailing_offset() {
    let mut t = Target::new(0x1000, 0x100);
    t.put_u64(0x1000, 0x1040);
    t.put_u64(0x1048, 0);
    let h = open_handle();
    let r = resolve(&mut t, &h, PointerWidth::Bits64, 0x1000, 0, vec![0x8, 0x10, 0x20]);
    assert_eq!(r, Ok(Resolution::Null));
    assert_eq!(t.reads, 2);
}

#[test]
fn null_first_pointer_is_null() {
    let mut t = Target::new(0x1000, 0x100);
    let h = open_handle();
    let r = resolve(&mut t, &h, PointerWidth::Bits64, 0x1000, 0x20, vec![0x8]);
    assert_eq!(r, Ok(Resolution::Null));
}

#[test]
fn chain_through_unmapped_memory_is_address_invalid() {
    let mut t = Target::new(0x1000, 0x100);
    t.put_u64(0x1000, 0x9000);
    let h = open_handle();
    let r = resolve(&mut t, &h, PointerWidth::Bits64, 0x1000, 0, vec![0x8, 0x10]);
    assert_eq!(r, Err(MemError::AddressInvalid));
}

#[test]
fn chain_start_past_address_space_is_address_invalid() {
    let h = open_handle();
    let r = resolve_ptr_offsets(&h, PointerWidth::Bits64, u64::MAX - 4, 2, vec![0]);
    assert!(matches!(r, Err(MemError::AddressInvalid)));
}

#[test]
fn short_pointer_read_is_short_transfer() {
    let h = open_handle();
    let (mut walk, _) = resolve_ptr_offsets(&h, PointerWidth::Bits64, 0x1000, 0, vec![0]).unwrap();
    assert!(matches!(walk.feed(&h, Transfer::Moved(vec![1, 2, 3])), Err(MemError::ShortTransfer)));
}

#[test]
fn write_then_read_round_trips_each_size() {
    let mut t = Target::new(0x1000, 0x40);
    let h = open_handle();
    write_value(&mut t, &h, 0x1001, 0xABu8).unwrap();
    assert_eq!(read_value::<u8>(&mut t, &h, 0x1001), Ok(0xAB));
    write_value(&mut t, &h, 0x1002, 0xBEEFu16).unwrap();
    assert_eq!(read_value::<u16>(&mut t, &h, 0x1002), Ok(0xBEEF));
    write_value(&mut t, &h, 0x1004, 0xDEADBEEFu32).unwrap();
    assert_eq!(read_value::<u32>(&mut t, &h, 0x1004), Ok(0xDEADBEEF));
    write_value(&mut t, &h, 0x1008, 0x0123_4567_89AB_CDEFu64).unwrap();
    assert_eq!(read_value::<u64>(&mut t, &h, 0x1008), Ok(0x0123_4567_89AB_CDEF));
}

#[test]
fn values_are_little_endian() {
    assert_eq!(0x12345678u32.encode(), vec![0x78, 0x56, 0x34, 0x12]);
    assert_eq!(u16::decode(&[0x34, 0x12]), 0x1234);
    assert_eq!(encode_le(0x0102, 3), vec![0x02, 0x01, 0x00]);
    assert_eq!(decode_le(&[0xFF, 0x00, 0x01]), 0x0100FF);
    assert_eq!(u64::byte_width(), 8);
}

#[test]
fn write_array_then_read_array_round_trips() {
    let mut t = Target::new(0x1000, 0x40);
    let h = open_handle();
    let values: Vec<u32> = vec![1, 0xFFFF_FFFF, 0x1234_5678, 0];
    let w = plan_write_array(&h, 0x1010, &values).unwrap();
    assert_eq!(w.bytes.len(), 16);
    let done = t.apply(&w);
    assert_eq!(finish_write(&w, done), Ok(()));
    let q = plan_read_array::<u32>(&h, 0x1010, 4).unwrap();
    assert_eq!(q.len, 16);
    let got = t.serve(&q);
    assert_eq!(finish_read_array::<u32>(&q, 4, got), Ok(values));
}

#[test]
fn array_elements_are_densely_packed() {
    let h = open_handle();
    let q = plan_read_array::<u16>(&h, 0x2000, 3).unwrap();
    let got = Transfer::Moved(vec![1, 0, 2, 0, 3, 1]);
    assert_eq!(finish_read_array::<u16>(&q, 3, got), Ok(vec![1u16, 2, 0x103]));
}

#[test]
fn array_too_large_is_address_invalid() {
    let h = open_handle();
    assert_eq!(plan_read_array::<u64>(&h, 0, usize::MAX / 4), Err(MemError::AddressInvalid));
}

#[test]
fn cstring_stops_at_terminator() {
    let mut t = Target::new(0x1000, 0x10);
    t.bytes[0..5].copy_from_slice(&[0x41, 0x42, 0x00, 0x43, 0x44]);
    let h = open_handle();
    let s = read_cstring(&mut t, &h, 0x1000, 64).unwrap();
    assert_eq!(s, b"AB".to_vec());
    assert_eq!(s.len(), 2);
}

#[test]
fn empty_cstring_has_no_bytes() {
    let mut t = Target::new(0x1000, 0x10);
    let h = open_handle();
    assert_eq!(read_cstring(&mut t, &h, 0x1000, 8), Ok(vec![]));
}

#[test]
fn cstring_without_terminator_is_unterminated() {
    let mut t = Target::new(0x1000, 0x100);
    for b in t.bytes.iter_mut() {
        *b = 0x61;
    }
    let h = open_handle();
    assert_eq!(read_cstring(&mut t, &h, 0x1000, 16), Err(MemError::UnterminatedString));
    assert_eq!(t.reads, 16);
    assert!(matches!(read_strlen(&h, 0x1000, 0), Err(MemError::UnterminatedString)));
}

#[test]
fn cstring_running_into_unmapped_memory_is_address_invalid() {
    let mut t = Target::new(0x1000, 4);
    t.bytes.copy_from_slice(&[1, 2, 3, 4]);
    let h = open_handle();
    assert_eq!(read_cstring(&mut t, &h, 0x1000, 64), Err(MemError::AddressInvalid));
}

#[test]
fn missing_image_is_not_found() {
    let entries = vec![
        ProcessEntry { pid: 4, exe_file: b"System\0\0".to_vec() },
        ProcessEntry { pid: 88, exe_file: b"game.exe\0junk".to_vec() },
        ProcessEntry { pid: 99, exe_file: b"game.exe\0".to_vec() },
    ];
    assert_eq!(pid_from_image(&entries, "other.exe"), Err(MemError::NotFound));
    assert_eq!(pid_from_image(&entries, "game.exe"), Ok(88));
    assert_eq!(pid_from_image(&entries, "Game.exe"), Err(MemError::NotFound));
    assert_eq!(pid_from_image(&entries, "game"), Err(MemError::NotFound));
    assert_eq!(pid_from_image(&vec![], "game.exe"), Err(MemError::NotFound));
}

#[test]
fn missing_module_is_not_found() {
    let entries = vec![
        ModuleEntry { base: 0x400000, module: b"game.exe\0".to_vec() },
        ModuleEntry { base: 0x7FF0_0000, module: b"mono-2.0-bdwgc.dll\0".to_vec() },
    ];
    assert_eq!(modaddress_from_modname(&entries, "mono-2.0-bdwgc.dll"), Ok(0x7FF0_0000));
    assert_eq!(modaddress_from_modname(&entries, "kernel32.dll"), Err(MemError::NotFound));
}

#[test]
fn released_handle_refuses_transfers() {
    let mut h = open_handle();
    assert_eq!(h.release(), Ok(0x44));
    assert!(h.is_released());
    assert_eq!(plan_read(&h, 0x1000, 4), Err(MemError::HandleClosed));
    assert_eq!(plan_read_value::<u32>(&h, 0x1000), Err(MemError::HandleClosed));
    assert!(matches!(plan_write_value(&h, 0x1000, 7u8), Err(MemError::HandleClosed)));
    assert!(matches!(plan_write_array(&h, 0x1000, &vec![1u16]), Err(MemError::HandleClosed)));
    assert_eq!(plan_read_array::<u8>(&h, 0x1000, 2), Err(MemError::HandleClosed));
    assert!(matches!(
        resolve_ptr_offsets(&h, PointerWidth::Bits64, 0x1000, 0, vec![0]),
        Err(MemError::HandleClosed)
    ));
    assert!(matches!(read_strlen(&h, 0x1000, 8), Err(MemError::HandleClosed)));
    assert_eq!(h.release(), Err(MemError::HandleClosed));
}

#[test]
fn refused_open_is_permission_denied() {
    assert!(proc_handle_from_pid(5, 1).is_ok());
    assert!(matches!(proc_handle_from_pid(5, 0), Err(MemError::PermissionDenied)));
    assert!(matches!(proc_handle_from_pid(5, usize::MAX), Err(MemError::PermissionDenied)));
    let h = proc_handle_from_pid(5, 0x80).unwrap();
    assert_eq!(h.pid(), 5);
    assert_eq!(h.raw(), 0x80);
}

#[test]
fn transfer_failures_are_reported() {
    let h = open_handle();
    let q = plan_read(&h, 0x1000, 4).unwrap();
    assert_eq!(finish_read(&q, Transfer::Denied), Err(MemError::AddressInvalid));
    assert_eq!(finish_read(&q, Transfer::Moved(vec![1, 2])), Err(MemError::ShortTransfer));
    assert_eq!(finish_read_value::<u32>(&q, Transfer::Moved(vec![1, 2])), Err(MemError::ShortTransfer));
    let w = plan_write_value(&h, 0x1000, 9u32).unwrap();
    assert_eq!(w.bytes, vec![9, 0, 0, 0]);
    assert_eq!(finish_write(&w, Written::Denied), Err(MemError::AddressInvalid));
    assert_eq!(finish_write(&w, Written::Moved(3)), Err(MemError::ShortTransfer));
    assert_eq!(plan_read(&h, u64::MAX - 2, 4), Err(MemError::AddressInvalid));
}

#[test]
fn window_checks() {
    assert_eq!(window_handle_from_title(0x10, true), Ok(0x10));
    assert_eq!(window_handle_from_title(0, false), Err(MemError::NotFound));
    assert_eq!(pid_from_window_handle(true, 77), Ok(77));
    assert_eq!(pid_from_window_handle(false, 0), Err(MemError::InvalidHandle));
}

#[test]
fn cstr_helpers() {
    assert_eq!(str_to_cstr("AdCap!", 6), b"AdCap!\0".to_vec());
    assert_eq!(str_to_cstr("AdCap!", 2), b"Ad\0".to_vec());
    assert_eq!(str_to_cstr("", 0), vec![0]);
    assert_eq!(cstr_length(b"abc\0def"), 3);
    assert_eq!(cstr_length(b"abc"), 3);
    assert!(cstr_matches(b"abc\0", b"abc"));
    assert!(!cstr_matches(b"abcd\0", b"abc"));
    assert_eq!(MemError::NotFound.describe(), "no match for the given name");
}

#[test]
fn signed_values_round_trip_as_twos_complement() {
    let mut t = Target::new(0x1000, 0x20);
    let h = open_handle();
    assert_eq!((-1i32).encode(), vec![0xFF; 4]);
    write_value(&mut t, &h, 0x1000, -5i32).unwrap();
    assert_eq!(read_value::<i32>(&mut t, &h, 0x1000), Ok(-5));
    write_value(&mut t, &h, 0x1008, i64::MIN).unwrap();
    assert_eq!(read_value::<i64>(&mut t, &h, 0x1008), Ok(i64::MIN));
}

#[test]
fn small_signed_values_round_trip() {
    let mut t = Target::new(0x1000, 0x20);
    let h = open_handle();
    assert_eq!((-2i8).encode(), vec![0xFE]);
    assert_eq!(i16::decode(&[0x00, 0x80]), i16::MIN);
    write_value(&mut t, &h, 0x1000, -100i8).unwrap();
    assert_eq!(read_value::<i8>(&mut t, &h, 0x1000), Ok(-100));
    write_value(&mut t, &h, 0x1002, -12345i16).unwrap();
    assert_eq!(read_value::<i16>(&mut t, &h, 0x1002), Ok(-12345));
}

#[test]
fn release_during_walk_stops_it() {
    let mut t = Target::new(0x1000, 0x100);
    t.put_u64(0x1000, 0x1040);
    let mut h = open_handle();
    let (mut walk, q) = resolve_ptr_offsets(&h, PointerWidth::Bits64, 0x1000, 0, vec![0x8, 0x10]).unwrap();
    let (mut scan, _) = read_strlen(&h, 0x1000, 8).unwrap();
    let got = t.serve(&q);
    assert_eq!(h.release(), Ok(0x44));
    assert!(matches!(walk.feed(&h, got), Err(MemError::HandleClosed)));
    assert!(matches!(scan.feed(&h, Transfer::Moved(vec![0])), Err(MemError::HandleClosed)));
}

#[test]
fn cstr_to_str_reads_up_to_terminator() {
    assert_eq!(cstr_to_str(b"game.exe\0junk"), "game.exe".to_string());
    assert_eq!(cstr_to_str(b"ab\xFF\0"), "ab\u{FFFD}".to_string());
    assert_eq!(cstr_to_str(b""), String::new());
}
