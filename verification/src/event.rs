//! The record of one out-of-memory kill, as the kernel probe emits it and as
//! the consumer reads it back, and the same record with the workload's
//! identity attached.

use crate::wire::{
    field, le_bytes, lemma_le_bytes_len, lemma_le_bytes_of_value, lemma_le_value_bound,
    i16_bits, le_byte, lemma_le_bytes_index, lemma_le_value_of_bytes, read_i16_le, read_le,
    read_u32_le, signed16, unsigned16,
};
use vstd::prelude::*;

verus! {

/// Length of the process name kept in a record.
pub const COMM_LEN: usize = 16;

/// Number of bytes of one record on the wire.
pub const RECORD_SIZE: usize = 80;

/// One out-of-memory kill as the kernel reported it. Sizes are in kibibytes.
#[derive(Copy, Clone, Debug, PartialEq, Eq)]
pub struct OomKillEvent {
    pub pid: u32,
    pub tgid: u32,
    /// Process name, padded with NUL; a name of full length has no terminator.
    pub comm: [u8; 16],
    pub total_vm: u64,
    pub anon_rss: u64,
    pub file_rss: u64,
    pub shmem_rss: u64,
    pub uid: u32,
    pub pgtables: u64,
    pub oom_score_adj: i16,
}

/// A kill together with what could be found out about the workload. Each
/// part of the identity is present or absent on its own.
#[derive(Clone, Debug)]
pub struct EnrichedOomEvent {
    pub raw_event: OomKillEvent,
    pub node_name: Option<String>,
    pub namespace: Option<String>,
    pub pod_name: Option<String>,
    pub container_name: Option<String>,
    pub container_id: Option<String>,
    /// Seconds since the epoch at which the consumer took the record.
    pub timestamp: u64,
}

/// An enriched event with its texts as sequences of characters.
pub struct EnrichedOomEventView {
    pub raw_event: OomKillEvent,
    pub node_name: Option<Seq<char>>,
    pub namespace: Option<Seq<char>>,
    pub pod_name: Option<Seq<char>>,
    pub container_name: Option<Seq<char>>,
    pub container_id: Option<Seq<char>>,
    pub timestamp: u64,
}

impl DeepView for EnrichedOomEvent {
    type V = EnrichedOomEventView;

    open spec fn deep_view(&self) -> EnrichedOomEventView {
        EnrichedOomEventView {
            raw_event: self.raw_event,
            node_name: self.node_name.deep_view(),
            namespace: self.namespace.deep_view(),
            pod_name: self.pod_name.deep_view(),
            container_name: self.container_name.deep_view(),
            container_id: self.container_id.deep_view(),
            timestamp: self.timestamp,
        }
    }
}

/// `n` zero bytes.
pub open spec fn zeros(n: nat) -> Seq<u8> {
    Seq::new(n, |i: int| 0u8)
}

/// The bytes of a record: the fields in declaration order, each integer
/// little-endian and aligned to its size, the gaps and the tail zero.
pub open spec fn encoding(e: OomKillEvent) -> Seq<u8> {
    le_bytes(e.pid as nat, 4) + le_bytes(e.tgid as nat, 4) + e.comm@ + le_bytes(
        e.total_vm as nat,
        8,
    ) + le_bytes(e.anon_rss as nat, 8) + le_bytes(e.file_rss as nat, 8) + le_bytes(
        e.shmem_rss as nat,
        8,
    ) + le_bytes(e.uid as nat, 4) + zeros(4) + le_bytes(e.pgtables as nat, 8) + le_bytes(
        unsigned16(e.oom_score_adj as int),
        2,
    ) + zeros(6)
}

/// `bytes` is a buffer of exactly one record, and `e` is what it says.
pub open spec fn decodes_to(bytes: Seq<u8>, e: OomKillEvent) -> bool {
    &&& bytes.len() == RECORD_SIZE
    &&& e.pid as nat == field(bytes, 0, 4)
    &&& e.tgid as nat == field(bytes, 4, 8)
    &&& e.comm@ == bytes.subrange(8, 24)
    &&& e.total_vm as nat == field(bytes, 24, 32)
    &&& e.anon_rss as nat == field(bytes, 32, 40)
    &&& e.file_rss as nat == field(bytes, 40, 48)
    &&& e.shmem_rss as nat == field(bytes, 48, 56)
    &&& e.uid as nat == field(bytes, 56, 60)
    &&& e.pgtables as nat == field(bytes, 64, 72)
    &&& e.oom_score_adj as int == signed16(field(bytes, 72, 74))
}

/// A buffer of exactly one record whose padding is zero: what an encoder
/// writes.
pub open spec fn is_canonical(bytes: Seq<u8>) -> bool {
    &&& bytes.len() == RECORD_SIZE
    &&& bytes.subrange(60, 64) == zeros(4)
    &&& bytes.subrange(74, 80) == zeros(6)
}

impl OomKillEvent {
    /// Reads the record that `data` holds. The length has to match the
    /// record size: a shorter or longer buffer holds no record.
    pub fn from_bytes(data: &[u8]) -> (r: Option<OomKillEvent>)
        ensures
            match r {
                Some(e) => decodes_to(data@, e),
                None => data.len() != RECORD_SIZE,
            },
    {
        if data.len() != RECORD_SIZE {
            return None;
        }
        let mut comm: [u8; 16] = [0u8; 16];
        let mut i: usize = 0;
        while i < COMM_LEN
            invariant
                i <= COMM_LEN,
                data.len() == RECORD_SIZE,
                forall|j: int| 0 <= j < i ==> comm@[j] == data@[8 + j],
            decreases COMM_LEN - i,
        {
            comm[i] = data[8 + i];
            i = i + 1;
        }
        proof {
            assert(comm@ =~= data@.subrange(8, 24));
        }
        Some(
            OomKillEvent {
                pid: read_u32_le(data, 0),
                tgid: read_u32_le(data, 4),
                comm,
                total_vm: read_le(data, 24, 8),
                anon_rss: read_le(data, 32, 8),
                file_rss: read_le(data, 40, 8),
                shmem_rss: read_le(data, 48, 8),
                uid: read_u32_le(data, 56),
                pgtables: read_le(data, 64, 8),
                oom_score_adj: read_i16_le(data, 72),
            },
        )
    }

    /// The byte in place `i` of the record's bytes.
    fn byte_at(&self, i: usize) -> (b: u8)
        requires
            i < RECORD_SIZE,
        ensures
            b == encoding(*self)[i as int],
    {
        let ghost adj = unsigned16(self.oom_score_adj as int);
        proof {
            lemma_le_bytes_len(self.pid as nat, 4);
            lemma_le_bytes_len(self.tgid as nat, 4);
            lemma_le_bytes_len(self.total_vm as nat, 8);
            lemma_le_bytes_len(self.anon_rss as nat, 8);
            lemma_le_bytes_len(self.file_rss as nat, 8);
            lemma_le_bytes_len(self.shmem_rss as nat, 8);
            lemma_le_bytes_len(self.uid as nat, 4);
            lemma_le_bytes_len(self.pgtables as nat, 8);
            lemma_le_bytes_len(adj, 2);
        }
        if i < 4 {
            proof {
                lemma_le_bytes_index(self.pid as nat, 4, i as int);
            }
            le_byte(self.pid as u64, i)
        } else if i < 8 {
            proof {
                lemma_le_bytes_index(self.tgid as nat, 4, i - 4);
            }
            le_byte(self.tgid as u64, i - 4)
        } else if i < 24 {
            self.comm[i - 8]
        } else if i < 32 {
            proof {
                lemma_le_bytes_index(self.total_vm as nat, 8, i - 24);
            }
            le_byte(self.total_vm, i - 24)
        } else if i < 40 {
            proof {
                lemma_le_bytes_index(self.anon_rss as nat, 8, i - 32);
            }
            le_byte(self.anon_rss, i - 32)
        } else if i < 48 {
            proof {
                lemma_le_bytes_index(self.file_rss as nat, 8, i - 40);
            }
            le_byte(self.file_rss, i - 40)
        } else if i < 56 {
            proof {
                lemma_le_bytes_index(self.shmem_rss as nat, 8, i - 48);
            }
            le_byte(self.shmem_rss, i - 48)
        } else if i < 60 {
            proof {
                lemma_le_bytes_index(self.uid as nat, 4, i - 56);
            }
            le_byte(self.uid as u64, i - 56)
        } else if i < 64 {
            0
        } else if i < 72 {
            proof {
                lemma_le_bytes_index(self.pgtables as nat, 8, i - 64);
            }
            le_byte(self.pgtables, i - 64)
        } else if i < 74 {
            proof {
                lemma_le_bytes_index(adj, 2, i - 72);
            }
            le_byte(i16_bits(self.oom_score_adj), i - 72)
        } else {
            0
        }
    }

    /// The record's bytes.
    pub fn to_bytes(&self) -> (out: [u8; 80])
        ensures
            out@ == encoding(*self),
    {
        let mut out: [u8; 80] = [0u8; 80];
        let mut i: usize = 0;
        while i < RECORD_SIZE
            invariant
                i <= RECORD_SIZE,
                forall|j: int| 0 <= j < i ==> out@[j] == encoding(*self)[j],
            decreases RECORD_SIZE - i,
        {
            out[i] = self.byte_at(i);
            i = i + 1;
        }
        proof {
            lemma_encoding_len(*self);
            assert(out@ =~= encoding(*self));
        }
        out
    }
}

/// A record's encoding has the fixed record size.
pub proof fn lemma_encoding_len(e: OomKillEvent)
    ensures
        encoding(e).len() == RECORD_SIZE,
{
    lemma_le_bytes_len(e.pid as nat, 4);
    lemma_le_bytes_len(e.tgid as nat, 4);
    lemma_le_bytes_len(e.total_vm as nat, 8);
    lemma_le_bytes_len(e.anon_rss as nat, 8);
    lemma_le_bytes_len(e.file_rss as nat, 8);
    lemma_le_bytes_len(e.shmem_rss as nat, 8);
    lemma_le_bytes_len(e.uid as nat, 4);
    lemma_le_bytes_len(e.pgtables as nat, 8);
    lemma_le_bytes_len(unsigned16(e.oom_score_adj as int), 2);
}

/// Decoding a record's own bytes gives the record, and nothing else.
pub proof fn lemma_decode_of_encoding(e: OomKillEvent, d: OomKillEvent)
    ensures
        decodes_to(encoding(e), e),
        decodes_to(encoding(e), d) ==> d == e,
{
    let b = encoding(e);
    let adj = unsigned16(e.oom_score_adj as int);
    lemma_encoding_len(e);
    lemma_le_bytes_len(e.pid as nat, 4);
    lemma_le_bytes_len(e.tgid as nat, 4);
    lemma_le_bytes_len(e.total_vm as nat, 8);
    lemma_le_bytes_len(e.anon_rss as nat, 8);
    lemma_le_bytes_len(e.file_rss as nat, 8);
    lemma_le_bytes_len(e.shmem_rss as nat, 8);
    lemma_le_bytes_len(e.uid as nat, 4);
    lemma_le_bytes_len(e.pgtables as nat, 8);
    lemma_le_bytes_len(adj, 2);
    assert(b.subrange(0, 4) =~= le_bytes(e.pid as nat, 4));
    assert(b.subrange(4, 8) =~= le_bytes(e.tgid as nat, 4));
    assert(b.subrange(8, 24) =~= e.comm@);
    assert(b.subrange(24, 32) =~= le_bytes(e.total_vm as nat, 8));
    assert(b.subrange(32, 40) =~= le_bytes(e.anon_rss as nat, 8));
    assert(b.subrange(40, 48) =~= le_bytes(e.file_rss as nat, 8));
    assert(b.subrange(48, 56) =~= le_bytes(e.shmem_rss as nat, 8));
    assert(b.subrange(56, 60) =~= le_bytes(e.uid as nat, 4));
    assert(b.subrange(64, 72) =~= le_bytes(e.pgtables as nat, 8));
    assert(b.subrange(72, 74) =~= le_bytes(adj, 2));
    reveal_with_fuel(crate::wire::span, 9);
    lemma_le_value_of_bytes(e.pid as nat, 4);
    lemma_le_value_of_bytes(e.tgid as nat, 4);
    lemma_le_value_of_bytes(e.total_vm as nat, 8);
    lemma_le_value_of_bytes(e.anon_rss as nat, 8);
    lemma_le_value_of_bytes(e.file_rss as nat, 8);
    lemma_le_value_of_bytes(e.shmem_rss as nat, 8);
    lemma_le_value_of_bytes(e.uid as nat, 4);
    lemma_le_value_of_bytes(e.pgtables as nat, 8);
    lemma_le_value_of_bytes(adj, 2);
    if decodes_to(b, d) {
        assert(d.comm =~= e.comm);
    }
}

/// Round trip: a canonical buffer of exactly one record, decoded and encoded
/// again, is the same bytes.
pub proof fn lemma_encoding_of_decoded(bytes: Seq<u8>, e: OomKillEvent)
    requires
        is_canonical(bytes),
        decodes_to(bytes, e),
    ensures
        encoding(e) == bytes,
{
    lemma_le_bytes_of_value(bytes.subrange(0, 4));
    lemma_le_bytes_of_value(bytes.subrange(4, 8));
    lemma_le_bytes_of_value(bytes.subrange(24, 32));
    lemma_le_bytes_of_value(bytes.subrange(32, 40));
    lemma_le_bytes_of_value(bytes.subrange(40, 48));
    lemma_le_bytes_of_value(bytes.subrange(48, 56));
    lemma_le_bytes_of_value(bytes.subrange(56, 60));
    lemma_le_bytes_of_value(bytes.subrange(64, 72));
    lemma_le_bytes_of_value(bytes.subrange(72, 74));
    lemma_le_value_bound(bytes.subrange(72, 74));
    reveal_with_fuel(crate::wire::span, 3);
    assert(unsigned16(e.oom_score_adj as int) == field(bytes, 72, 74));
    lemma_encoding_len(e);
    assert(encoding(e) =~= bytes.subrange(0, 4) + bytes.subrange(4, 8) + bytes.subrange(8, 24)
        + bytes.subrange(24, 32) + bytes.subrange(32, 40) + bytes.subrange(40, 48)
        + bytes.subrange(48, 56) + bytes.subrange(56, 60) + bytes.subrange(60, 64)
        + bytes.subrange(64, 72) + bytes.subrange(72, 74) + bytes.subrange(74, 80));
    assert(encoding(e) =~= bytes);
}

} // verus!
