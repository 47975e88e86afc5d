//! What the kernel probe computes: from the argument buffer of the
//! `oom:mark_victim` tracepoint to one record. The probe itself only hands
//! the buffer in and pushes the record out.

use crate::event::{zeros, OomKillEvent, COMM_LEN};
use crate::wire::{field, read_i16_le, read_le, read_u32_le, signed16};
use vstd::prelude::*;

verus! {

/// Size of the fixed part of the tracepoint's arguments: four common header
/// fields (8 bytes), then `pid` at 8, the name's data location at 12,
/// `total_vm` at 16, `anon_rss` at 24, `file_rss` at 32, `shmem_rss` at 40,
/// `uid` at 48, `pgtables` at 56 and `oom_score_adj` at 64.
pub const ARGS_SIZE: usize = 72;

/// Number of bytes of the name that starts at `start`: up to the first NUL,
/// the end of the buffer or `limit` bytes, whichever comes first.
pub open spec fn name_len(buf: Seq<u8>, start: int, limit: nat) -> nat
    decreases limit,
{
    if limit == 0 || start >= buf.len() || buf[start] == 0 {
        0
    } else {
        1 + name_len(buf, start + 1, (limit - 1) as nat)
    }
}

/// The name that starts at `offset`, cut to `COMM_LEN` bytes and padded with
/// NUL to that length.
pub open spec fn name_at(buf: Seq<u8>, offset: int) -> Seq<u8> {
    let n = name_len(buf, offset, COMM_LEN as nat);
    buf.subrange(offset, offset + n) + zeros((COMM_LEN - n) as nat)
}

/// Where the name lies: the low 16 bits of the data location descriptor,
/// counted from the start of the argument buffer.
pub open spec fn comm_offset(ctx: Seq<u8>) -> nat {
    field(ctx, 12, 16) % 0x1_0000
}

/// Every read that the probe makes stays inside the buffer.
pub open spec fn readable(ctx: Seq<u8>) -> bool {
    ctx.len() >= ARGS_SIZE && comm_offset(ctx) < ctx.len()
}

/// `e` is the record of the kill that `ctx` describes, taken by the task
/// whose id pair is `pid_tgid` (thread group in the high word).
pub open spec fn captures(ctx: Seq<u8>, pid_tgid: u64, e: OomKillEvent) -> bool {
    &&& e.pid as nat == field(ctx, 8, 12)
    &&& e.tgid as nat == pid_tgid as nat / 0x1_0000_0000
    &&& e.comm@ == name_at(ctx, comm_offset(ctx) as int)
    &&& e.total_vm as nat == field(ctx, 16, 24)
    &&& e.anon_rss as nat == field(ctx, 24, 32)
    &&& e.file_rss as nat == field(ctx, 32, 40)
    &&& e.shmem_rss as nat == field(ctx, 40, 48)
    &&& e.uid as nat == field(ctx, 48, 52)
    &&& e.pgtables as nat == field(ctx, 56, 64)
    &&& e.oom_score_adj as int == signed16(field(ctx, 64, 66))
}

/// Reads the NUL-terminated name at `offset` into a buffer of `COMM_LEN`
/// bytes: a longer name is cut, a shorter one padded with NUL.
pub fn read_name(buf: &[u8], offset: usize) -> (comm: [u8; 16])
    requires
        offset <= buf.len(),
    ensures
        comm@ == name_at(buf@, offset as int),
{
    let mut comm: [u8; 16] = [0u8; 16];
    let mut i: usize = 0;
    while i < COMM_LEN && i < buf.len() - offset && buf[offset + i] != 0
        invariant
            i <= COMM_LEN,
            offset + i <= buf.len(),
            name_len(buf@, offset as int, COMM_LEN as nat) == i + name_len(
                buf@,
                offset + i,
                (COMM_LEN - i) as nat,
            ),
            forall|j: int| 0 <= j < i ==> comm@[j] == buf@[offset + j],
            forall|j: int| i <= j < COMM_LEN ==> comm@[j] == 0,
        decreases COMM_LEN - i,
    {
        comm[i] = buf[offset + i];
        i = i + 1;
    }
    proof {
        assert(name_len(buf@, offset + i, (COMM_LEN - i) as nat) == 0);
        let want = name_at(buf@, offset as int);
        assert(want == buf@.subrange(offset as int, offset + i) + zeros((COMM_LEN - i) as nat));
        assert forall|j: int| 0 <= j < COMM_LEN implies comm@[j] == want[j] by {
            if j < i {
                assert(want[j] == buf@.subrange(offset as int, offset + i)[j]);
            } else {
                assert(want[j] == zeros((COMM_LEN - i) as nat)[j - i]);
            }
        }
        assert(comm@ =~= want);
    }
    comm
}

/// The probe's work for one firing of the tracepoint. `ctx` is the argument
/// buffer, `pid_tgid` the id pair of the current task. A read that would
/// leave the buffer ends the invocation without a record; otherwise the
/// record holds exactly what the buffer says.
pub fn mark_victim(ctx: &[u8], pid_tgid: u64) -> (r: Option<OomKillEvent>)
    ensures
        match r {
            Some(e) => readable(ctx@) && captures(ctx@, pid_tgid, e),
            None => !readable(ctx@),
        },
{
    if ctx.len() < ARGS_SIZE {
        return None;
    }
    let data_loc: u64 = read_le(ctx, 12, 4);
    let offset: u64 = data_loc % 0x1_0000;
    if offset >= ctx.len() as u64 {
        return None;
    }
    let tgid: u64 = pid_tgid / 0x1_0000_0000;
    Some(
        OomKillEvent {
            pid: read_u32_le(ctx, 8),
            tgid: tgid as u32,
            comm: read_name(ctx, offset as usize),
            total_vm: read_le(ctx, 16, 8),
            anon_rss: read_le(ctx, 24, 8),
            file_rss: read_le(ctx, 32, 8),
            shmem_rss: read_le(ctx, 40, 8),
            uid: read_u32_le(ctx, 48),
            pgtables: read_le(ctx, 56, 8),
            oom_score_adj: read_i16_le(ctx, 64),
        },
    )
}

/// The probe's answer to a fault: the invocation ends and no record leaves
/// it. A dropped event is acceptable, a corrupted one is not.
pub fn panic() -> (r: Option<OomKillEvent>)
    ensures
        r is None,
{
    None
}

} // verus!
