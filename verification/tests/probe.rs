use oom_watcher::probe::{mark_victim, read_name, ARGS_SIZE};

/// A tracepoint argument buffer: the fixed part, then the name at `name_at`.
fn args(name_at: u16, name: &[u8], len: usize) -> Vec<u8> {
    let mut buf = vec![0u8; len];
    buf[0..2].copy_from_slice(&517u16.to_le_bytes());
    buf[4..8].copy_from_slice(&77i32.to_le_bytes());
    buf[8..12].copy_from_slice(&4242i32.to_le_bytes());
    // data location: length in the high half, offset in the low half
    let loc: u32 = ((name.len() as u32 + 1) << 16) | name_at as u32;
    buf[12..16].copy_from_slice(&loc.to_le_bytes());
    buf[16..24].copy_from_slice(&204800u64.to_le_bytes());
    buf[24..32].copy_from_slice(&102400u64.to_le_bytes());
    buf[32..40].copy_from_slice(&64u64.to_le_bytes());
    buf[40..48].copy_from_slice(&8u64.to_le_bytes());
    buf[48..52].copy_from_slice(&1000u32.to_le_bytes());
    buf[56..64].copy_from_slice(&512u64.to_le_bytes());
    buf[64..66].copy_from_slice(&(-998i16).to_le_bytes());
    let start = name_at as usize;
    if start < len {
        let n = name.len().min(len - start);
        buf[start..start + n].copy_from_slice(&name[..n]);
    }
    buf
}

#[test]
fn probe_builds_the_record_from_the_arguments() {
    let buf = args(72, b"stress", 96);
    let event = mark_victim(&buf, (4200u64 << 32) | 4242).expect("all reads stay inside");
    assert_eq!(event.pid, 4242);
    assert_eq!(event.tgid, 4200);
    assert_eq!(&event.comm, b"stress\0\0\0\0\0\0\0\0\0\0");
    assert_eq!(event.total_vm, 204800);
    assert_eq!(event.anon_rss, 102400);
    assert_eq!(event.file_rss, 64);
    assert_eq!(event.shmem_rss, 8);
    assert_eq!(event.uid, 1000);
    assert_eq!(event.pgtables, 512);
    assert_eq!(event.oom_score_adj, -998);
}

#[test]
fn probe_takes_only_the_low_half_of_the_data_location() {
    let buf = args(72, b"nginx", 96);
    // the high half (a length) is not part of the offset
    assert_eq!(u32::from_le_bytes([buf[12], buf[13], buf[14], buf[15]]) >> 16, 6);
    let event = mark_victim(&buf, 0).expect("all reads stay inside");
    assert_eq!(&event.comm[..6], b"nginx\0");
    assert_eq!(event.tgid, 0);
}

#[test]
fn probe_gives_up_on_a_short_argument_buffer() {
    assert_eq!(ARGS_SIZE, 72);
    let buf = args(40, b"x", 71);
    assert_eq!(mark_victim(&buf, 1), None);
    assert_eq!(mark_victim(&[], 1), None);
}

#[test]
fn probe_gives_up_where_the_name_lies_outside() {
    let buf = args(96, b"stress", 96);
    assert_eq!(mark_victim(&buf, 1), None);
    let buf = args(95, b"s", 96);
    let event = mark_victim(&buf, 1).expect("the last byte can be read");
    assert_eq!(&event.comm, b"s\0\0\0\0\0\0\0\0\0\0\0\0\0\0\0");
}

#[test]
fn long_name_is_cut_without_terminator() {
    let buf = args(72, b"a-very-long-process-name", 128);
    let event = mark_victim(&buf, 1).expect("all reads stay inside");
    assert_eq!(&event.comm, b"a-very-long-proc");
}

#[test]
fn name_of_full_length_fills_the_buffer() {
    let mut buf = vec![0u8; 32];
    buf[4..20].copy_from_slice(b"0123456789abcdef");
    assert_eq!(&read_name(&buf, 4), b"0123456789abcdef");
}

#[test]
fn name_ends_at_the_first_nul_or_at_the_end() {
    let buf = b"..ab\0cd".to_vec();
    assert_eq!(&read_name(&buf, 2)[..4], b"ab\0\0");
    assert_eq!(&read_name(&buf, 5)[..4], b"cd\0\0");
    assert_eq!(read_name(&buf, 4), [0u8; 16]);
    assert_eq!(read_name(&buf, 7), [0u8; 16]);
}

#[test]
fn fault_leaves_no_record() {
    assert_eq!(oom_watcher::probe::panic(), None);
}

#[test]
fn record_from_the_probe_survives_the_channel() {
    let buf = args(80, b"stress", 96);
    let event = mark_victim(&buf, (9u64 << 32) | 4242).expect("all reads stay inside");
    let received = oom_watcher::event::OomKillEvent::from_bytes(&event.to_bytes());
    assert_eq!(received, Some(event));
}
