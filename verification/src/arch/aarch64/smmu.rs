//! ARM SMMU v3 bookkeeping: stream table entries, the command queue ring,
//! first-fit IOVA allocation and the DMA mapping registry. Register and
//! memory writes are performed by the platform layer from the words that
//! the functions here compute.

use vstd::prelude::*;

verus! {

/// SMMU v3 command opcodes.
#[derive(Clone, Copy, Debug, PartialEq, Eq)]
pub enum SMMUCommand {
    Prefetch,
    CfgiSte,
    CfgiAll,
    TlbiNhAsid,
    TlbiEL2All,
    PriResp,
    Resume,
    Stall,
    Sync,
}

/// Hardware opcode of a command.
pub fn command_opcode(c: SMMUCommand) -> (r: u8)
    ensures
        r == match c {
            SMMUCommand::Prefetch => 0x01u8,
            SMMUCommand::CfgiSte => 0x03u8,
            SMMUCommand::CfgiAll => 0x04u8,
            SMMUCommand::TlbiNhAsid => 0x11u8,
            SMMUCommand::TlbiEL2All => 0x20u8,
            SMMUCommand::PriResp => 0x21u8,
            SMMUCommand::Resume => 0x22u8,
            SMMUCommand::Stall => 0x23u8,
            SMMUCommand::Sync => 0x46u8,
        },
{
    match c {
        SMMUCommand::Prefetch => 0x01,
        SMMUCommand::CfgiSte => 0x03,
        SMMUCommand::CfgiAll => 0x04,
        SMMUCommand::TlbiNhAsid => 0x11,
        SMMUCommand::TlbiEL2All => 0x20,
        SMMUCommand::PriResp => 0x21,
        SMMUCommand::Resume => 0x22,
        SMMUCommand::Stall => 0x23,
        SMMUCommand::Sync => 0x46,
    }
}

pub type StreamId = u32;

pub type ASID = u16;

pub type IOVA = u64;

pub type DPA = u64;

/// Stream permissions for DMA operations.
#[derive(Clone, Copy, Debug, PartialEq, Eq)]
pub struct StreamPermissions {
    pub read: bool,
    pub write: bool,
    pub execute: bool,
    pub privileged: bool,
    pub secure: bool,
}

impl StreamPermissions {
    /// Read and write, nothing else.
    pub fn default() -> (r: Self)
        ensures
            r == (StreamPermissions { read: true, write: true, execute: false, privileged: false, secure: false }),
    {
        StreamPermissions { read: true, write: true, execute: false, privileged: false, secure: false }
    }
}

/// Stream Table Entry configuration.
#[derive(Clone, Copy, Debug)]
pub struct StreamTableEntry {
    pub stream_id: StreamId,
    pub valid: bool,
    pub bypass: bool,
    pub asid: ASID,
    pub ttb: u64,
    pub tcr: u32,
    pub mair: u64,
    pub permissions: StreamPermissions,
}

/// IOVA allocation region.
#[derive(Clone, Copy, Debug)]
pub struct IOVARegion {
    pub start: IOVA,
    pub size: usize,
    pub available: bool,
    pub owner: Option<StreamId>,
}

/// DMA mapping entry.
#[derive(Clone, Copy, Debug)]
pub struct DmaMapping {
    pub iova: IOVA,
    pub pa: u64,
    pub size: usize,
    pub stream_id: StreamId,
    pub permissions: StreamPermissions,
}

/// SMMU features detected at initialization.
#[derive(Clone, Copy, Debug)]
pub struct SMMUFeatures {
    pub stream_id_bits: u32,
    pub max_asid: u32,
    pub tt_format: u32,
    pub page_sizes: u32,
    pub two_level_stream: bool,
    pub pri_support: bool,
    pub ats_support: bool,
}

/// Command queue ring indices.
#[derive(Clone, Copy, Debug)]
pub struct CommandQueue {
    pub base: u64,
    pub size: usize,
    pub producer: u32,
    pub consumer: u32,
}

/// Event queue ring indices.
#[derive(Clone, Copy, Debug)]
pub struct EventQueue {
    pub base: u64,
    pub size: usize,
    pub producer: u32,
    pub consumer: u32,
}

/// Stream table.
pub struct StreamTable {
    pub base: u64,
    pub entries: Vec<StreamTableEntry>,
    pub max_stream_id: u32,
}

/// SMMU statistics.
#[derive(Clone, Copy, Debug)]
pub struct SMMUStatistics {
    pub mappings_created: u64,
    pub mappings_removed: u64,
    pub tlb_invalidations: u64,
    pub translation_faults: u64,
    pub permission_faults: u64,
    pub commands_processed: u64,
}

impl SMMUStatistics {
    pub fn zero() -> (r: Self)
        ensures
            r.mappings_created == 0 && r.mappings_removed == 0 && r.tlb_invalidations == 0
                && r.translation_faults == 0 && r.permission_faults == 0 && r.commands_processed == 0,
    {
        SMMUStatistics {
            mappings_created: 0,
            mappings_removed: 0,
            tlb_invalidations: 0,
            translation_faults: 0,
            permission_faults: 0,
            commands_processed: 0,
        }
    }
}

/// Word 0 of a stream table entry: valid bit, bypass bit and the ASID.
pub open spec fn ste_word0_spec(ste: StreamTableEntry) -> u64 {
    (if ste.valid { 1u64 } else { 0u64 }) | (if ste.bypass { 1u64 << 2u64 } else { 0u64 }) | ((ste.asid as u64) << 48u64)
}

/// Word 0 of a stream table entry carries the valid flag in bit 0, the
/// bypass flag in bit 2 and the ASID in bits 48 to 63; every other bit is
/// clear.
pub proof fn lemma_ste_word0_layout(ste: StreamTableEntry)
    ensures
        (ste_word0_spec(ste) & 1u64 == 1u64) == ste.valid,
        ((ste_word0_spec(ste) >> 2u64) & 1u64 == 1u64) == ste.bypass,
        ste_word0_spec(ste) >> 48u64 == ste.asid as u64,
        ste_word0_spec(ste) & 0x0000_FFFF_FFFF_FFFAu64 == 0,
{
    assert(1u64 << 2u64 == 4u64) by (bit_vector);
    let v: u64 = if ste.valid { 1u64 } else { 0u64 };
    let b: u64 = if ste.bypass { 1u64 << 2u64 } else { 0u64 };
    let a: u64 = ste.asid as u64;
    assert(ste_word0_spec(ste) == v | b | (a << 48u64));
    assert(a <= 0xFFFF);
    assert({
        &&& ((v | b | (a << 48u64)) & 1u64 == 1u64) == (v == 1u64)
        &&& (((v | b | (a << 48u64)) >> 2u64) & 1u64 == 1u64) == (b == 4u64)
        &&& (v | b | (a << 48u64)) >> 48u64 == a
        &&& (v | b | (a << 48u64)) & 0x0000_FFFF_FFFF_FFFAu64 == 0
    }) by (bit_vector)
        requires
            v == 0 || v == 1,
            b == 0 || b == 4,
            a <= 0xFFFF,
    ;
}

/// Word 0 of a stream table entry: valid bit, bypass bit and the ASID.
pub fn ste_word0(ste: &StreamTableEntry) -> (w: u64)
    ensures
        w == ste_word0_spec(*ste),
        (w & 1u64 == 1u64) == ste.valid,
        ((w >> 2u64) & 1u64 == 1u64) == ste.bypass,
        w >> 48u64 == ste.asid as u64,
        w & 0x0000_FFFF_FFFF_FFFAu64 == 0,
{
    proof {
        lemma_ste_word0_layout(*ste);
    }
    (if ste.valid { 1u64 } else { 0u64 }) | (if ste.bypass { 1u64 << 2u64 } else { 0u64 }) | ((ste.asid as u64)
        << 48u64)
}

/// Translation table index of a page: bits 12..21 of the IOVA.
pub fn page_table_index(page_iova: u64) -> (r: u64)
    ensures
        r == (page_iova >> 12u64) & 0x1FFu64,
        r < 512,
{
    let r = (page_iova >> 12u64) & 0x1FFu64;
    assert(r < 512) by (bit_vector)
        requires
            r == (page_iova >> 12u64) & 0x1FFu64,
    ;
    r
}

/// Page table entry for a page: valid+table bits and the access bits
/// (bit 6 readable, bit 7 writable).
pub fn page_table_entry(page_pa: u64, permissions: StreamPermissions) -> (pte: u64)
    ensures
        pte == (page_pa | 3u64) | (if permissions.read { 64u64 } else { 0u64 }) | (if permissions.write {
            128u64
        } else {
            0u64
        }),
{
    let read_bit: u64 = if permissions.read { 64 } else { 0 };
    let write_bit: u64 = if permissions.write { 128 } else { 0 };
    (page_pa | 0x3u64) | read_bit | write_bit
}

/// Page-aligned address: the low 12 bits are clear.
pub open spec fn page_aligned(x: u64) -> bool {
    x & 0xFFFu64 == 0
}

/// SMMU device state kept by the kernel.
pub struct SMMUDevice {
    pub base_address: u64,
    pub available: bool,
    pub features: SMMUFeatures,
    pub command_queue: CommandQueue,
    pub event_queue: EventQueue,
    pub stream_table: StreamTable,
    pub stats: SMMUStatistics,
}

/// Position of the stream table entry for `stream_id`, if any.
pub open spec fn ste_position(entries: Seq<StreamTableEntry>, stream_id: StreamId) -> int {
    choose|i: int| 0 <= i < entries.len() && #[trigger] entries[i].stream_id == stream_id
}

/// The stream table holds an entry for `stream_id`.
pub open spec fn has_stream(entries: Seq<StreamTableEntry>, stream_id: StreamId) -> bool {
    exists|i: int| 0 <= i < entries.len() && #[trigger] entries[i].stream_id == stream_id
}

/// Stream identifiers are unique in the table.
pub open spec fn streams_unique(entries: Seq<StreamTableEntry>) -> bool {
    forall|i: int, j: int|
        0 <= i < entries.len() && 0 <= j < entries.len() && i != j ==> #[trigger] entries[i].stream_id
            != #[trigger] entries[j].stream_id
}

/// The producer index after one more command, when the ring has room.
pub open spec fn next_producer(q: CommandQueue) -> int {
    (q.producer + 1) % (q.size as int)
}

impl SMMUDevice {
    /// The command ring is usable: non-empty and indexable by `u32`.
    pub open spec fn queue_ok(&self) -> bool {
        0 < self.command_queue.size <= u32::MAX && self.command_queue.producer < u32::MAX
    }

    /// Queues `command`; refused when the ring is full.
    pub fn send_command(&mut self, command: SMMUCommand) -> (res: Result<(), &'static str>)
        requires
            old(self).queue_ok(),
        ensures
            (next_producer(old(self).command_queue) == old(self).command_queue.consumer) == res is Err,
            res is Err ==> res == Err::<(), &'static str>("Command queue full"),
            final(self).queue_ok(),
            res is Ok ==> final(self).command_queue.producer == next_producer(old(self).command_queue)
                && final(self).stats.commands_processed == old(self).stats.commands_processed.wrapping_add(1),
            res is Err ==> final(self).command_queue == old(self).command_queue
                && final(self).stats == old(self).stats,
            final(self).stream_table.entries@ == old(self).stream_table.entries@,
            final(self).stream_table.max_stream_id == old(self).stream_table.max_stream_id,
            final(self).command_queue.size == old(self).command_queue.size,
            final(self).command_queue.consumer == old(self).command_queue.consumer,
            final(self).stats.mappings_created == old(self).stats.mappings_created,
            final(self).stats.mappings_removed == old(self).stats.mappings_removed,
    {
        let producer = self.command_queue.producer;
        let next = (producer + 1) % (self.command_queue.size as u32);
        if next == self.command_queue.consumer {
            return Err("Command queue full");
        }
        self.command_queue.producer = next;
        self.stats.commands_processed = self.stats.commands_processed.wrapping_add(1);
        Ok(())
    }

    /// Installs the stream table entry for `stream_id` with translation
    /// table `ttb` and invalidates its cached copy.
    pub fn create_stream(&mut self, stream_id: StreamId, asid: ASID, ttb: u64) -> (res: Result<(), &'static str>)
        requires
            old(self).queue_ok(),
            streams_unique(old(self).stream_table.entries@),
        ensures
            streams_unique(final(self).stream_table.entries@),
            stream_id > old(self).stream_table.max_stream_id ==> res == Err::<(), &'static str>(
                "Stream ID exceeds maximum",
            ) && final(self).stream_table.entries@ == old(self).stream_table.entries@,
            stream_id <= old(self).stream_table.max_stream_id ==> has_stream(
                final(self).stream_table.entries@,
                stream_id,
            ) && final(self).stream_table.entries@[ste_position(final(self).stream_table.entries@, stream_id)] == (
            StreamTableEntry {
                stream_id,
                valid: true,
                bypass: false,
                asid,
                ttb,
                tcr: 0x80803520u32,
                mair: 0xFFu64,
                permissions: StreamPermissions {
                    read: true,
                    write: true,
                    execute: false,
                    privileged: false,
                    secure: false,
                },
            }) && (res is Ok <==> next_producer(old(self).command_queue) != old(self).command_queue.consumer),
            forall|s: StreamId|
                #![trigger has_stream(final(self).stream_table.entries@, s)]
                s != stream_id ==> has_stream(final(self).stream_table.entries@, s) == has_stream(
                    old(self).stream_table.entries@,
                    s,
                ) && (has_stream(old(self).stream_table.entries@, s) ==> final(self).stream_table.entries@[ste_position(
                    final(self).stream_table.entries@,
                    s,
                )] == old(self).stream_table.entries@[ste_position(old(self).stream_table.entries@, s)]),
            final(self).queue_ok(),
            final(self).stream_table.max_stream_id == old(self).stream_table.max_stream_id,
            final(self).command_queue.size == old(self).command_queue.size,
            final(self).command_queue.consumer == old(self).command_queue.consumer,
            res is Ok ==> final(self).command_queue.producer == next_producer(old(self).command_queue),
    {
        if stream_id > self.stream_table.max_stream_id {
            return Err("Stream ID exceeds maximum");
        }
        let ste = StreamTableEntry {
            stream_id,
            valid: true,
            bypass: false,
            asid,
            ttb,
            tcr: 0x80803520u32,
            mair: 0xFFu64,
            permissions: StreamPermissions::default(),
        };
        let ghost pre = self.stream_table.entries@;
        let n = self.stream_table.entries.len();
        match self.find_stream(stream_id) {
            Some(i) => {
                self.stream_table.entries.set(i, ste);
                proof {
                    let e = self.stream_table.entries@;
                    assert(e == pre.update(i as int, ste));
                    assert(pre[i as int].stream_id == stream_id);
                    assert(streams_unique(e)) by {
                        assert forall|a: int, b: int|
                            0 <= a < e.len() && 0 <= b < e.len() && a != b implies #[trigger] e[a].stream_id
                            != #[trigger] e[b].stream_id by {
                            assert(pre[a].stream_id == e[a].stream_id);
                            assert(pre[b].stream_id == e[b].stream_id);
                        }
                    }
                    assert(e[i as int].stream_id == stream_id);
                    assert(ste_position(e, stream_id) == i as int);
                    assert forall|s: StreamId| #![trigger has_stream(e, s)] s != stream_id implies has_stream(e, s)
                        == has_stream(pre, s) && (has_stream(pre, s) ==> e[ste_position(e, s)] == pre[ste_position(
                        pre,
                        s,
                    )]) by {
                        if has_stream(pre, s) {
                            let k = ste_position(pre, s);
                            assert(e[k].stream_id == s);
                            assert(ste_position(e, s) == k);
                        }
                        if has_stream(e, s) {
                            let k = ste_position(e, s);
                            assert(pre[k].stream_id == s);
                        }
                    }
                }
            },
            None => {
                self.stream_table.entries.push(ste);
                proof {
                    let e = self.stream_table.entries@;
                    assert(e == pre.push(ste));
                    assert(streams_unique(e)) by {
                        assert forall|a: int, b: int|
                            0 <= a < e.len() && 0 <= b < e.len() && a != b implies #[trigger] e[a].stream_id
                            != #[trigger] e[b].stream_id by {
                            if a < n && b < n {
                                assert(pre[a].stream_id == e[a].stream_id);
                                assert(pre[b].stream_id == e[b].stream_id);
                            } else if a < n {
                                assert(pre[a].stream_id == e[a].stream_id);
                            } else {
                                assert(pre[b].stream_id == e[b].stream_id);
                            }
                        }
                    }
                    assert(e[n as int].stream_id == stream_id);
                    assert(ste_position(e, stream_id) == n as int);
                    assert forall|s: StreamId| #![trigger has_stream(e, s)] s != stream_id implies has_stream(e, s)
                        == has_stream(pre, s) && (has_stream(pre, s) ==> e[ste_position(e, s)] == pre[ste_position(
                        pre,
                        s,
                    )]) by {
                        if has_stream(pre, s) {
                            let k = ste_position(pre, s);
                            assert(e[k].stream_id == s);
                            assert(ste_position(e, s) == k);
                        }
                        if has_stream(e, s) {
                            let k = ste_position(e, s);
                            assert(k != n);
                            assert(pre[k].stream_id == s);
                        }
                    }
                }
            },
        }
        let ghost mid = self.stream_table.entries@;
        let r = self.send_command(SMMUCommand::CfgiSte);
        proof {
            assert(self.stream_table.entries@ == mid);
        }
        r
    }

    fn find_stream(&self, stream_id: StreamId) -> (r: Option<usize>)
        requires
            streams_unique(self.stream_table.entries@),
        ensures
            match r {
                Some(i) => i < self.stream_table.entries@.len() && has_stream(self.stream_table.entries@, stream_id)
                    && ste_position(self.stream_table.entries@, stream_id) == i as int,
                None => !has_stream(self.stream_table.entries@, stream_id),
            },
    {
        let mut i: usize = 0;
        while i < self.stream_table.entries.len()
            invariant
                streams_unique(self.stream_table.entries@),
                i <= self.stream_table.entries@.len(),
                forall|k: int| 0 <= k < i ==> (#[trigger] self.stream_table.entries@[k]).stream_id != stream_id,
            decreases self.stream_table.entries@.len() - i,
        {
            if self.stream_table.entries[i].stream_id == stream_id {
                proof {
                    let e = self.stream_table.entries@;
                    assert(e[i as int].stream_id == stream_id);
                    assert(ste_position(e, stream_id) == i as int);
                }
                return Some(i);
            }
            i = i + 1;
        }
        None
    }

    /// Maps `size` bytes at `iova` to `pa` for `stream_id`: alignment is
    /// checked, the stream must exist, and its TLB entries are invalidated.
    pub fn map_pages(
        &mut self,
        stream_id: StreamId,
        iova: IOVA,
        pa: u64,
        size: usize,
        permissions: StreamPermissions,
    ) -> (res: Result<(), &'static str>)
        requires
            old(self).queue_ok(),
            streams_unique(old(self).stream_table.entries@),
        ensures
            !(page_aligned(iova) && page_aligned(pa) && page_aligned(size as u64)) ==> res == Err::<
                (),
                &'static str,
            >("Address or size not page aligned"),
            page_aligned(iova) && page_aligned(pa) && page_aligned(size as u64) && !has_stream(
                old(self).stream_table.entries@,
                stream_id,
            ) ==> res == Err::<(), &'static str>("Stream not found"),
            res is Ok ==> final(self).stats.mappings_created == old(self).stats.mappings_created.wrapping_add(
                (size / 4096) as u64,
            ),
            res is Ok <==> page_aligned(iova) && page_aligned(pa) && page_aligned(size as u64) && has_stream(
                old(self).stream_table.entries@,
                stream_id,
            ) && next_producer(old(self).command_queue) != old(self).command_queue.consumer,
            final(self).stream_table.entries@ == old(self).stream_table.entries@,
            final(self).stream_table.max_stream_id == old(self).stream_table.max_stream_id,
            final(self).command_queue.size == old(self).command_queue.size,
            final(self).queue_ok(),
    {
        if (iova & 0xFFFu64) != 0 || (pa & 0xFFFu64) != 0 || ((size as u64) & 0xFFFu64) != 0 {
            return Err("Address or size not page aligned");
        }
        match self.find_stream(stream_id) {
            Some(_) => {
                let num_pages = size / 4096;
                if let Err(e) = self.send_command(SMMUCommand::TlbiNhAsid) {
                    return Err(e);
                }
                self.stats.mappings_created = self.stats.mappings_created.wrapping_add(num_pages as u64);
                Ok(())
            },
            None => Err("Stream not found"),
        }
    }

    /// Unmaps `size` bytes at `iova` for `stream_id`.
    pub fn unmap_pages(&mut self, stream_id: StreamId, iova: IOVA, size: usize) -> (res: Result<(), &'static str>)
        requires
            old(self).queue_ok(),
            streams_unique(old(self).stream_table.entries@),
        ensures
            !(page_aligned(iova) && page_aligned(size as u64)) ==> res == Err::<(), &'static str>(
                "Address or size not page aligned",
            ),
            page_aligned(iova) && page_aligned(size as u64) && !has_stream(old(self).stream_table.entries@, stream_id)
                ==> res == Err::<(), &'static str>("Stream not found"),
            res is Ok ==> final(self).stats.mappings_removed == old(self).stats.mappings_removed.wrapping_add(
                (size / 4096) as u64,
            ),
            res is Ok <==> page_aligned(iova) && page_aligned(size as u64) && has_stream(
                old(self).stream_table.entries@,
                stream_id,
            ) && next_producer(old(self).command_queue) != old(self).command_queue.consumer,
            final(self).stream_table.entries@ == old(self).stream_table.entries@,
            final(self).stream_table.max_stream_id == old(self).stream_table.max_stream_id,
            final(self).command_queue.size == old(self).command_queue.size,
            final(self).queue_ok(),
    {
        if (iova & 0xFFFu64) != 0 || ((size as u64) & 0xFFFu64) != 0 {
            return Err("Address or size not page aligned");
        }
        match self.find_stream(stream_id) {
            Some(_) => {
                let num_pages = size / 4096;
                if let Err(e) = self.send_command(SMMUCommand::TlbiNhAsid) {
                    return Err(e);
                }
                self.stats.mappings_removed = self.stats.mappings_removed.wrapping_add(num_pages as u64);
                Ok(())
            },
            None => Err("Stream not found"),
        }
    }
}


/// Page-rounded size of an IOVA request.
pub open spec fn aligned_request(size: usize) -> usize {
    ((size + 0xFFFusize) as usize) & !0xFFFusize
}

/// A region can serve a request of `a` bytes.
pub open spec fn region_fits(r: IOVARegion, a: usize) -> bool {
    r.available && r.size >= a
}

/// Region `i` is the first that can serve `a` bytes.
pub open spec fn first_fit(rs: Seq<IOVARegion>, a: usize, i: int) -> bool {
    &&& 0 <= i < rs.len()
    &&& region_fits(rs[i], a)
    &&& forall|j: int| 0 <= j < i ==> !region_fits(#[trigger] rs[j], a)
}

/// The regions after serving `a` bytes for `sid` from region `i`: the
/// region is taken, and any rest of it becomes a new available region.
pub open spec fn regions_after_alloc(rs: Seq<IOVARegion>, i: int, a: usize, sid: StreamId) -> Seq<IOVARegion> {
    let r = rs[i];
    let taken = IOVARegion { start: r.start, size: a, available: false, owner: Some(sid) };
    if r.size == a {
        rs.update(i, taken)
    } else {
        rs.update(i, taken).push(
            IOVARegion { start: (r.start + a) as u64, size: (r.size - a) as usize, available: true, owner: None },
        )
    }
}

/// Every region of `rs` lies inside `[lo, hi)`.
pub open spec fn regions_within(rs: Seq<IOVARegion>, lo: int, hi: int) -> bool {
    forall|i: int| 0 <= i < rs.len() ==> lo <= (#[trigger] rs[i]).start && rs[i].start + rs[i].size <= hi
}

/// IOVA space stays inside the window it was created with: an allocator
/// made for `[base, base + size)` starts inside it; a first-fit allocation
/// of `a > 0` bytes from regions inside a window answers an address whose
/// `a` bytes lie inside it and leaves the regions inside it; and freeing a
/// region leaves them inside it too.
pub proof fn lemma_iova_in_window(rs: Seq<IOVARegion>, lo: int, hi: int, a: usize, sid: StreamId, i: int, j: int)
    requires
        regions_within(rs, lo, hi),
        hi <= u64::MAX,
    ensures
        regions_within(seq![IOVARegion { start: lo as u64, size: (hi - lo) as usize, available: true, owner: None }], lo, hi)
            <== (0 <= lo <= u64::MAX && 0 <= hi - lo <= usize::MAX),
        first_fit(rs, a, i) && a > 0 ==> lo <= rs[i].start && rs[i].start < hi && rs[i].start + a <= hi
            && regions_within(regions_after_alloc(rs, i, a, sid), lo, hi),
        0 <= j < rs.len() ==> regions_within(
            rs.update(j, IOVARegion { start: rs[j].start, size: rs[j].size, available: true, owner: None }),
            lo,
            hi,
        ),
{
    if first_fit(rs, a, i) && a > 0 {
        let t = regions_after_alloc(rs, i, a, sid);
        let r = rs[i];
        assert(r.start + r.size <= hi);
        assert forall|k: int| 0 <= k < t.len() implies lo <= (#[trigger] t[k]).start && t[k].start + t[k].size <= hi by {
            if k < rs.len() && k != i {
                assert(t[k] == rs[k]);
            } else if k == i {
                assert(t[k].start == r.start && t[k].size == a);
            } else {
                assert(r.size != a);
                assert(t[k].start == r.start + a && t[k].size == r.size - a);
            }
        }
    }
    if 0 <= j < rs.len() {
        let t = rs.update(j, IOVARegion { start: rs[j].start, size: rs[j].size, available: true, owner: None });
        assert forall|k: int| 0 <= k < t.len() implies lo <= (#[trigger] t[k]).start && t[k].start + t[k].size <= hi by {
            if k != j {
                assert(t[k] == rs[k]);
            }
        }
    }
}

/// Region `i` is the first one starting at `iova` that `sid` owns.
pub open spec fn first_owned(rs: Seq<IOVARegion>, iova: IOVA, sid: StreamId, i: int) -> bool {
    &&& 0 <= i < rs.len()
    &&& rs[i].start == iova && rs[i].owner == Some(sid)
    &&& forall|j: int| 0 <= j < i ==> !((#[trigger] rs[j]).start == iova && rs[j].owner == Some(sid))
}

/// Two regions share no address.
pub open spec fn regions_disjoint(a: IOVARegion, b: IOVARegion) -> bool {
    a.start + a.size <= b.start || b.start + b.size <= a.start
}

/// The SMMU v3 identification value in the low half of the ID register.
pub open spec fn is_smmu_v3(device_id: u32) -> bool {
    device_id & 0xFFFF == 0x43B7
}

/// The identification fields give shift counts that fit 32-bit values.
pub open spec fn id_fields_ok(idr1: u32) -> bool {
    &&& ((idr1 >> 27u32) & 0x1F) + 1 < 32
    &&& ((idr1 >> 21u32) & 0x3F) + 1 < 32
}

/// The features that `IDR0` and `IDR1` announce.
pub open spec fn features_from(idr0: u32, idr1: u32) -> SMMUFeatures {
    SMMUFeatures {
        stream_id_bits: (((idr1 >> 27u32) & 0x1F) + 1) as u32,
        max_asid: 1u32 << ((((idr1 >> 21u32) & 0x3F) + 1) as u32),
        tt_format: (idr0 >> 2u32) & 0x3,
        page_sizes: (idr1 >> 28u32) & 0xF,
        two_level_stream: idr0 & 0x800_0000 != 0,
        pri_support: idr0 & 0x1_0000 != 0,
        ats_support: idr0 & 0x2_0000 != 0,
    }
}

/// Entries of the command and of the event queue.
pub const QUEUE_ENTRIES: usize = 4096;

/// `CR0` with the SMMU enable bit.
pub const CR0_ENABLE: u32 = 1;

impl SMMUDevice {
    /// Probes the SMMU from its identification registers (`device_id` and
    /// `idr0` are read at offset 0, `idr1` at offset 4), with the command
    /// queue, event queue and stream table memory at the given addresses;
    /// the queues are then set up, the stream table too, and the device is
    /// enabled.
    pub fn init(
        base_address: u64,
        device_id: u32,
        idr0: u32,
        idr1: u32,
        cmd_queue_addr: u64,
        evt_queue_addr: u64,
        stream_table_addr: u64,
    ) -> (r: Result<(Self, SMMUSetup), &'static str>)
        requires
            is_smmu_v3(device_id) ==> id_fields_ok(idr1),
        ensures
            !is_smmu_v3(device_id) ==> r == Err::<(Self, SMMUSetup), &'static str>("SMMU v3 not found"),
            is_smmu_v3(device_id) ==> (r matches Ok((d, setup)) && {
                let f = features_from(idr0, idr1);
                &&& d.base_address == base_address
                &&& d.available
                &&& d.features == f
                &&& d.command_queue == (CommandQueue { base: cmd_queue_addr, size: 4096, producer: 0, consumer: 0 })
                &&& d.event_queue == (EventQueue { base: evt_queue_addr, size: 4096, producer: 0, consumer: 0 })
                &&& d.stream_table.base == stream_table_addr
                &&& d.stream_table.entries@.len() == 0
                &&& d.stream_table.max_stream_id == ((1u32 << f.stream_id_bits) - 1) as u32
                &&& d.stats.mappings_created == 0 && d.stats.mappings_removed == 0 && d.stats.tlb_invalidations == 0
                &&& d.stats.translation_faults == 0 && d.stats.permission_faults == 0 && d.stats.commands_processed == 0
                &&& d.queue_ok()
                &&& streams_unique(d.stream_table.entries@)
                &&& setup == queue_and_table_words(cmd_queue_addr, evt_queue_addr, stream_table_addr, f.stream_id_bits)
            }),
    {
        if device_id & 0xFFFF != 0x43B7 {
            return Err("SMMU v3 not found");
        }
        let stream_id_bits = ((idr1 >> 27u32) & 0x1F) + 1;
        let asid_shift = ((idr1 >> 21u32) & 0x3F) + 1;
        let features = SMMUFeatures {
            stream_id_bits,
            max_asid: 1u32 << asid_shift,
            tt_format: (idr0 >> 2u32) & 0x3,
            page_sizes: (idr1 >> 28u32) & 0xF,
            two_level_stream: (idr0 & 0x800_0000) != 0,
            pri_support: (idr0 & 0x1_0000) != 0,
            ats_support: (idr0 & 0x2_0000) != 0,
        };
        let command_queue = CommandQueue { base: 0, size: QUEUE_ENTRIES, producer: 0, consumer: 0 };
        let event_queue = EventQueue { base: 0, size: QUEUE_ENTRIES, producer: 0, consumer: 0 };
        proof {
            assert(stream_id_bits < 32 ==> (1u32 << stream_id_bits) >= 1) by (bit_vector);
        }
        let stream_table = StreamTable { base: 0, entries: Vec::new(), max_stream_id: (1u32 << stream_id_bits) - 1 };
        let mut device = SMMUDevice {
            base_address,
            available: false,
            features,
            command_queue,
            event_queue,
            stream_table,
            stats: SMMUStatistics::zero(),
        };
        let (cmdq_base, evtq_base) = match device.setup_queues(cmd_queue_addr, evt_queue_addr) {
            Ok(words) => words,
            Err(e) => {
                return Err(e);
            },
        };
        let (strtab_base, strtab_base_cfg) = match device.setup_stream_table(stream_table_addr) {
            Ok(words) => words,
            Err(e) => {
                return Err(e);
            },
        };
        device.available = true;
        Ok((device, SMMUSetup { cmdq_base, evtq_base, strtab_base, strtab_base_cfg, cr0: CR0_ENABLE }))
    }

    /// Places the command and event queues at the given addresses; answers
    /// the `CMDQ_BASE` and `EVTQ_BASE` words: each address with the queue's
    /// log2 size in the low bits.
    pub fn setup_queues(&mut self, cmd_queue_addr: u64, evt_queue_addr: u64) -> (r: Result<(u64, u64), &'static str>)
        requires
            old(self).command_queue.size == 4096,
            old(self).event_queue.size == 4096,
        ensures
            r == Ok::<(u64, u64), &'static str>((cmd_queue_addr | 12, evt_queue_addr | 12)),
            final(self).command_queue == (CommandQueue { base: cmd_queue_addr, ..old(self).command_queue }),
            final(self).event_queue == (EventQueue { base: evt_queue_addr, ..old(self).event_queue }),
            final(self).features == old(self).features,
            final(self).stream_table.base == old(self).stream_table.base,
            final(self).stream_table.entries@ == old(self).stream_table.entries@,
            final(self).stream_table.max_stream_id == old(self).stream_table.max_stream_id,
            final(self).stats == old(self).stats,
            final(self).base_address == old(self).base_address,
            final(self).available == old(self).available,
    {
        self.command_queue.base = cmd_queue_addr;
        let cmd_log2 = (self.command_queue.size as u64).trailing_zeros() as u64;
        self.event_queue.base = evt_queue_addr;
        let evt_log2 = (self.event_queue.size as u64).trailing_zeros() as u64;
        proof {
            vstd::std_specs::bits::axiom_u64_trailing_zeros(4096u64);
            let t = vstd::std_specs::bits::u64_trailing_zeros(4096u64) as u64;
            assert(t < 64 ==> ((4096u64 >> t) & 1u64 == 1u64 ==> t == 12)) by (bit_vector);
        }
        Ok((cmd_queue_addr | cmd_log2, evt_queue_addr | evt_log2))
    }

    /// Bytes of the linear stream table: 64 per stream, for at most 2^16
    /// streams.
    pub fn stream_table_bytes(&self) -> (r: usize)
        requires
            self.features.stream_id_bits < 32,
        ensures
            r == 64 * (1usize << (if self.features.stream_id_bits < 16 { self.features.stream_id_bits } else { 16 })),
    {
        let bits = if self.features.stream_id_bits < 16 {
            self.features.stream_id_bits
        } else {
            16
        };
        let max_streams: usize = 1usize << bits;
        proof {
            assert(bits <= 16 ==> (1usize << bits) <= 65536) by (bit_vector);
        }
        max_streams * 64
    }

    /// Places the stream table at `table_addr`; answers the `STRTAB_BASE`
    /// word and the `STRTAB_BASE_CFG` word (linear format, log2 of the
    /// stream count in bits 16 and up).
    pub fn setup_stream_table(&mut self, table_addr: u64) -> (r: Result<(u64, u32), &'static str>)
        requires
            1 <= old(self).features.stream_id_bits < 32,
        ensures
            r == Ok::<(u64, u32), &'static str>((table_addr, ((old(self).features.stream_id_bits - 1) as u32) << 16u32)),
            final(self).stream_table.base == table_addr,
            final(self).stream_table.entries@ == old(self).stream_table.entries@,
            final(self).stream_table.max_stream_id == old(self).stream_table.max_stream_id,
            final(self).command_queue == old(self).command_queue,
            final(self).event_queue == old(self).event_queue,
            final(self).features == old(self).features,
            final(self).stats == old(self).stats,
            final(self).base_address == old(self).base_address,
            final(self).available == old(self).available,
    {
        self.stream_table.base = table_addr;
        let strtab_cfg = ((self.features.stream_id_bits - 1) << 16u32) | 0;
        proof {
            let b = (self.features.stream_id_bits - 1) as u32;
            assert((b << 16u32) | 0u32 == b << 16u32) by (bit_vector);
        }
        Ok((table_addr, strtab_cfg))
    }

    /// Address and the eight words of the stream table entry `ste`: word 0
    /// holds the valid bit, the bypass bit and the ASID, then the
    /// translation table base, the TCR and the MAIR; the rest are zero.
    pub fn write_stream_table_entry(&self, ste: &StreamTableEntry) -> (r: Result<(u64, [u64; 8]), &'static str>)
        requires
            self.stream_table.base + ste.stream_id * 64 <= u64::MAX,
        ensures
            r matches Ok((addr, words)) && addr == self.stream_table.base + ste.stream_id * 64 && words@ == seq![
                ste_word0_spec(*ste),
                ste.ttb,
                ste.tcr as u64,
                ste.mair,
                0u64,
                0u64,
                0u64,
                0u64,
            ],
    {
        let entry_addr = self.stream_table.base + (ste.stream_id as u64 * 64);
        let word0 = ste_word0(ste);
        let words: [u64; 8] = [word0, ste.ttb, ste.tcr as u64, ste.mair, 0, 0, 0, 0];
        Ok((entry_addr, words))
    }

    /// Queues the invalidation of the cached stream table entry of
    /// `stream_id`.
    pub fn invalidate_ste_cache(&mut self, stream_id: StreamId) -> (res: Result<(), &'static str>)
        requires
            old(self).queue_ok(),
        ensures
            (next_producer(old(self).command_queue) == old(self).command_queue.consumer) == res is Err,
            final(self).queue_ok(),
            res is Ok ==> final(self).command_queue.producer == next_producer(old(self).command_queue),
            final(self).stream_table.entries@ == old(self).stream_table.entries@,
    {
        self.send_command(SMMUCommand::CfgiSte)
    }
}

/// The register words that `SMMUDevice::init` leaves for the platform to
/// write: the queue bases, the stream table base and configuration, and
/// the enable value of `CR0`.
#[derive(Clone, Copy, Debug, PartialEq, Eq, Structural)]
pub struct SMMUSetup {
    pub cmdq_base: u64,
    pub evtq_base: u64,
    pub strtab_base: u64,
    pub strtab_base_cfg: u32,
    pub cr0: u32,
}

/// The words of a setup with the given memory and stream identifier width.
pub open spec fn queue_and_table_words(cmd: u64, evt: u64, table: u64, stream_id_bits: u32) -> SMMUSetup {
    SMMUSetup {
        cmdq_base: cmd | 12,
        evtq_base: evt | 12,
        strtab_base: table,
        strtab_base_cfg: ((stream_id_bits - 1) as u32) << 16u32,
        cr0: 1,
    }
}

/// IOVA space allocator.
pub struct IOVAAllocator {
    regions: Vec<IOVARegion>,
    total_size: usize,
    next_alloc: IOVA,
}

impl IOVAAllocator {
    pub closed spec fn regions_view(&self) -> Seq<IOVARegion> {
        self.regions@
    }

    /// Regions stay inside the 64-bit space and never overlap.
    pub closed spec fn wf(&self) -> bool {
        &&& forall|i: int| 0 <= i < self.regions@.len() ==> #[trigger] self.regions@[i].start + self.regions@[i].size <= u64::MAX
        &&& forall|i: int, j: int|
            0 <= i < self.regions@.len() && 0 <= j < self.regions@.len() && i != j ==> regions_disjoint(
                #[trigger] self.regions@[i],
                #[trigger] self.regions@[j],
            )
    }

    /// One available region covering `[base, base + size)`.
    pub fn new(base: IOVA, size: usize) -> (r: Self)
        ensures
            r.regions_view() == seq![IOVARegion { start: base, size, available: true, owner: None }],
            base + size <= u64::MAX ==> r.wf(),
    {
        let mut regions = Vec::new();
        regions.push(IOVARegion { start: base, size, available: true, owner: None });
        IOVAAllocator { regions, total_size: size, next_alloc: base }
    }

    /// First-fit allocation of `size` bytes (rounded up to whole pages) for
    /// `stream_id`.
    pub fn allocate(&mut self, size: usize, stream_id: StreamId) -> (res: Result<IOVA, &'static str>)
        requires
            old(self).wf(),
            size <= usize::MAX - 0xFFF,
        ensures
            final(self).wf(),
            match res {
                Ok(iova) => exists|i: int|
                    first_fit(old(self).regions_view(), aligned_request(size), i) && iova == old(self).regions_view()[i].start && final(self).regions_view() == regions_after_alloc(
                        old(self).regions_view(),
                        i,
                        aligned_request(size),
                        stream_id,
                    ),
                Err(e) => e == "No suitable IOVA range available" && (forall|i: int|
                    0 <= i < old(self).regions_view().len() ==> !region_fits(
                        #[trigger] old(self).regions_view()[i],
                        aligned_request(size),
                    )) && final(self).regions_view() == old(self).regions_view(),
            },
    {
        let aligned_size: usize = (size + 0xFFF) & !0xFFFusize;
        let ghost pre = self.regions@;
        let n = self.regions.len();
        let mut i: usize = 0;
        while i < n
            invariant
                self.wf(),
                n == self.regions@.len(),
                self.regions@ == pre,
                old(self).regions@ == pre,
                i <= n,
                aligned_size == aligned_request(size),
                forall|j: int| 0 <= j < i ==> !region_fits(#[trigger] pre[j], aligned_size),
            decreases n - i,
        {
            let region = self.regions[i];
            if region.available && region.size >= aligned_size {
                let iova = region.start;
                let taken = IOVARegion { start: region.start, size: aligned_size, available: false, owner: Some(stream_id) };
                if region.size == aligned_size {
                    self.regions.set(i, taken);
                } else {
                    let remaining = IOVARegion {
                        start: region.start + aligned_size as u64,
                        size: region.size - aligned_size,
                        available: true,
                        owner: None,
                    };
                    self.regions.set(i, taken);
                    self.regions.push(remaining);
                }
                proof {
                    assert(first_fit(pre, aligned_size, i as int));
                    assert(self.regions@ == regions_after_alloc(pre, i as int, aligned_size, stream_id));
                    assert(pre == old(self).regions_view());
                    assert(first_fit(old(self).regions_view(), aligned_request(size), i as int) && iova == old(self).regions_view()[i as int].start && self.regions_view() == regions_after_alloc(
                        old(self).regions_view(),
                        i as int,
                        aligned_request(size),
                        stream_id,
                    ));
                    let rs = self.regions@;
                    assert forall|a: int, b: int|
                        0 <= a < rs.len() && 0 <= b < rs.len() && a != b implies regions_disjoint(
                        #[trigger] rs[a],
                        #[trigger] rs[b],
                    ) by {
                        if a < n && b < n && a != i && b != i {
                            assert(rs[a] == pre[a] && rs[b] == pre[b]);
                        } else if a < n && b < n {
                            assert(regions_disjoint(pre[a], pre[b]));
                        } else if a < n {
                            assert(regions_disjoint(pre[a], pre[i as int]) || a == i);
                        } else {
                            assert(regions_disjoint(pre[b], pre[i as int]) || b == i);
                        }
                    }
                }
                return Ok(iova);
            }
            i = i + 1;
        }
        Err("No suitable IOVA range available")
    }

    /// Releases the first region at `iova` owned by `stream_id`.
    pub fn free(&mut self, iova: IOVA, stream_id: StreamId) -> (res: Result<(), &'static str>)
        requires
            old(self).wf(),
        ensures
            final(self).wf(),
            match res {
                Ok(()) => exists|i: int|
                    first_owned(old(self).regions_view(), iova, stream_id, i) && final(self).regions_view() == old(self).regions_view().update(
                        i,
                        IOVARegion {
                            start: old(self).regions_view()[i].start,
                            size: old(self).regions_view()[i].size,
                            available: true,
                            owner: None,
                        },
                    ),
                Err(e) => e == "IOVA region not found" && (forall|i: int|
                    0 <= i < old(self).regions_view().len() ==> !((#[trigger] old(self).regions_view()[i]).start
                        == iova && old(self).regions_view()[i].owner == Some(stream_id)))
                    && final(self).regions_view() == old(self).regions_view(),
            },
    {
        let ghost pre = self.regions@;
        let n = self.regions.len();
        let mut i: usize = 0;
        while i < n
            invariant
                self.wf(),
                n == self.regions@.len(),
                self.regions@ == pre,
                old(self).regions@ == pre,
                i <= n,
                forall|j: int| 0 <= j < i ==> !((#[trigger] pre[j]).start == iova && pre[j].owner == Some(stream_id)),
            decreases n - i,
        {
            let region = self.regions[i];
            if region.start == iova && region.owner == Some(stream_id) {
                self.regions.set(i, IOVARegion { start: region.start, size: region.size, available: true, owner: None });
                proof {
                    assert(first_owned(pre, iova, stream_id, i as int));
                    assert(pre == old(self).regions_view());
                    assert(self.regions@ == pre.update(
                        i as int,
                        IOVARegion { start: pre[i as int].start, size: pre[i as int].size, available: true, owner: None },
                    ));
                    let rs = self.regions@;
                    assert forall|a: int, b: int|
                        0 <= a < rs.len() && 0 <= b < rs.len() && a != b implies regions_disjoint(
                        #[trigger] rs[a],
                        #[trigger] rs[b],
                    ) by {
                        assert(regions_disjoint(pre[a], pre[b]));
                    }
                }
                return Ok(());
            }
            i = i + 1;
        }
        Err("IOVA region not found")
    }
}

proof fn lemma_first_owned_exists(rs: Seq<IOVARegion>, iova: IOVA, sid: StreamId, k: int)
    requires
        0 <= k < rs.len(),
        rs[k].start == iova && rs[k].owner == Some(sid),
    ensures
        exists|j: int| first_owned(rs, iova, sid, j),
    decreases k,
{
    if exists|j: int| 0 <= j < k && (#[trigger] rs[j]).start == iova && rs[j].owner == Some(sid) {
        let j = choose|j: int| 0 <= j < k && (#[trigger] rs[j]).start == iova && rs[j].owner == Some(sid);
        lemma_first_owned_exists(rs, iova, sid, j);
    } else {
        assert(first_owned(rs, iova, sid, k));
    }
}

/// After a successful allocation for `sid`, freeing the returned address
/// for `sid` finds a region that `sid` owns there, so it succeeds.
pub proof fn lemma_allocate_then_free(rs: Seq<IOVARegion>, i: int, a: usize, sid: StreamId)
    requires
        first_fit(rs, a, i),
    ensures
        exists|j: int| first_owned(regions_after_alloc(rs, i, a, sid), rs[i].start, sid, j),
{
    let after = regions_after_alloc(rs, i, a, sid);
    assert(after[i].start == rs[i].start && after[i].owner == Some(sid));
    lemma_first_owned_exists(after, rs[i].start, sid, i);
}

/// The allocator never hands out overlapping ranges: any two regions of a
/// well-formed allocator, in particular two taken ones, are disjoint.
pub proof fn lemma_regions_never_overlap(alloc: &IOVAAllocator, i: int, j: int)
    requires
        alloc.wf(),
        0 <= i < alloc.regions_view().len(),
        0 <= j < alloc.regions_view().len(),
        i != j,
    ensures
        regions_disjoint(alloc.regions_view()[i], alloc.regions_view()[j]),
{
}


/// The mapping list holds an entry for `(sid, iova)`.
pub open spec fn has_mapping(ms: Seq<DmaMapping>, sid: StreamId, iova: IOVA) -> bool {
    exists|k: int| 0 <= k < ms.len() && (#[trigger] ms[k]).stream_id == sid && ms[k].iova == iova
}

/// Keys `(stream_id, iova)` are unique in the mapping list.
pub open spec fn mapping_keys_unique(ms: Seq<DmaMapping>) -> bool {
    forall|a: int, b: int|
        0 <= a < ms.len() && 0 <= b < ms.len() && a != b ==> !((#[trigger] ms[a]).stream_id == (#[trigger] ms[b]).stream_id
            && ms[a].iova == ms[b].iova)
}

/// SMMU manager: the device (when present), the IOVA allocator and the
/// recorded DMA mappings.
pub struct SMMUManager {
    device: Option<SMMUDevice>,
    iova_allocator: IOVAAllocator,
    mappings: Vec<DmaMapping>,
    global_stats: SMMUStatistics,
}

impl SMMUManager {
    pub closed spec fn has_device(&self) -> bool {
        self.device is Some
    }

    /// The device, when there is one.
    pub closed spec fn device_view(&self) -> Option<SMMUDevice> {
        self.device
    }

    pub closed spec fn regions_view(&self) -> Seq<IOVARegion> {
        self.iova_allocator.regions@
    }

    pub closed spec fn mappings_view(&self) -> Seq<DmaMapping> {
        self.mappings@
    }

    pub closed spec fn stats_view(&self) -> SMMUStatistics {
        self.global_stats
    }

    pub closed spec fn wf(&self) -> bool {
        &&& self.iova_allocator.wf()
        &&& mapping_keys_unique(self.mappings@)
        &&& match self.device {
            Some(d) => d.queue_ok() && streams_unique(d.stream_table.entries@),
            None => true,
        }
    }

    /// A manager with no device, no IOVA space and no mappings.
    pub fn new() -> (r: Self)
        ensures
            r.wf(),
            !r.has_device(),
            r.regions_view() == Seq::<IOVARegion>::empty(),
            r.mappings_view() == Seq::<DmaMapping>::empty(),
            r.stats_view().mappings_created == 0 && r.stats_view().mappings_removed == 0
                && r.stats_view().tlb_invalidations == 0 && r.stats_view().translation_faults == 0
                && r.stats_view().permission_faults == 0 && r.stats_view().commands_processed == 0,
    {
        SMMUManager {
            device: None,
            iova_allocator: IOVAAllocator { regions: Vec::new(), total_size: 0, next_alloc: 0 },
            mappings: Vec::new(),
            global_stats: SMMUStatistics::zero(),
        }
    }

    /// Takes the result of probing the device. A found device is kept and
    /// the IOVA space becomes one GiB at 0x8000_0000; a failed probe leaves
    /// the manager without a device. Both succeed.
    pub fn init(&mut self, probed: Result<SMMUDevice, &'static str>) -> (res: Result<(), &'static str>)
        requires
            old(self).wf(),
            match probed {
                Ok(d) => d.queue_ok() && streams_unique(d.stream_table.entries@),
                Err(_) => true,
            },
        ensures
            final(self).wf(),
            res == Ok::<(), &'static str>(()),
            probed is Ok ==> final(self).has_device() && final(self).regions_view() == seq![
                IOVARegion { start: 0x8000_0000u64, size: 0x4000_0000usize, available: true, owner: None },
            ],
            probed is Err ==> final(self).has_device() == old(self).has_device() && final(self).regions_view()
                == old(self).regions_view(),
            final(self).mappings_view() == old(self).mappings_view(),
    {
        match probed {
            Ok(device) => {
                self.device = Some(device);
                self.iova_allocator = IOVAAllocator::new(0x8000_0000, 1024 * 1024 * 1024);
                Ok(())
            },
            Err(_) => Ok(()),
        }
    }

    fn find_mapping(&self, stream_id: StreamId, iova: IOVA) -> (r: Option<usize>)
        ensures
            match r {
                Some(k) => k < self.mappings@.len() && self.mappings@[k as int].stream_id == stream_id
                    && self.mappings@[k as int].iova == iova,
                None => !has_mapping(self.mappings@, stream_id, iova),
            },
    {
        let mut k: usize = 0;
        while k < self.mappings.len()
            invariant
                k <= self.mappings@.len(),
                forall|j: int|
                    0 <= j < k ==> !((#[trigger] self.mappings@[j]).stream_id == stream_id && self.mappings@[j].iova
                        == iova),
            decreases self.mappings@.len() - k,
        {
            if self.mappings[k].stream_id == stream_id && self.mappings[k].iova == iova {
                return Some(k);
            }
            k = k + 1;
        }
        None
    }

    /// Allocates IOVA space for `size` bytes, maps it on the device when
    /// there is one, and records the mapping.
    pub fn map_dma(&mut self, stream_id: StreamId, pa: u64, size: usize, permissions: StreamPermissions) -> (res:
        Result<IOVA, &'static str>)
        requires
            old(self).wf(),
            size <= usize::MAX - 0xFFF,
        ensures
            final(self).wf(),
            final(self).has_device() == old(self).has_device(),
            (forall|i: int|
                0 <= i < old(self).regions_view().len() ==> !region_fits(
                    #[trigger] old(self).regions_view()[i],
                    aligned_request(size),
                )) ==> res == Err::<IOVA, &'static str>("No suitable IOVA range available")
                && final(self).regions_view() == old(self).regions_view()
                && final(self).mappings_view() == old(self).mappings_view(),
            res is Ok ==> (exists|i: int|
                first_fit(old(self).regions_view(), aligned_request(size), i) && res == Ok::<IOVA, &'static str>(
                    old(self).regions_view()[i].start,
                ) && final(self).regions_view() == regions_after_alloc(
                    old(self).regions_view(),
                    i,
                    aligned_request(size),
                    stream_id,
                )) && has_mapping(final(self).mappings_view(), stream_id, res->Ok_0)
                && final(self).stats_view().mappings_created == old(self).stats_view().mappings_created.wrapping_add(1),
            !old(self).has_device() && (exists|i: int|
                0 <= i < old(self).regions_view().len() && region_fits(
                    #[trigger] old(self).regions_view()[i],
                    aligned_request(size),
                )) ==> res is Ok,
            (old(self).device_view() matches Some(d) && has_stream(d.stream_table.entries@, stream_id) && next_producer(
                d.command_queue,
            ) != d.command_queue.consumer) && page_aligned(pa) && page_aligned(size as u64) && (exists|i: int|
                first_fit(old(self).regions_view(), aligned_request(size), i) && page_aligned(
                    #[trigger] old(self).regions_view()[i].start,
                )) ==> res is Ok,
    {
        let ghost pre_regions = self.iova_allocator.regions@;
        let iova = match self.iova_allocator.allocate(size, stream_id) {
            Ok(v) => v,
            Err(e) => {
                return Err(e);
            },
        };
        proof {
            let i = choose|i: int|
                first_fit(pre_regions, aligned_request(size), i) && iova == pre_regions[i].start
                    && self.iova_allocator.regions@ == regions_after_alloc(
                    pre_regions,
                    i,
                    aligned_request(size),
                    stream_id,
                );
            assert(region_fits(pre_regions[i], aligned_request(size)));
            assert(old(self).regions_view()[i] == pre_regions[i]);
        }
        let mut dev = self.device.take();
        match &mut dev {
            Some(d) => {
                let r = d.map_pages(stream_id, iova, pa, size, permissions);
                if let Err(e) = r {
                    self.device = dev;
                    return Err(e);
                }
            },
            None => {},
        }
        self.device = dev;
        let mapping = DmaMapping { iova, pa, size, stream_id, permissions };
        let ghost before = self.mappings@;
        match self.find_mapping(stream_id, iova) {
            Some(k) => {
                self.mappings.set(k, mapping);
                proof {
                    let ms = self.mappings@;
                    assert(ms[k as int].stream_id == stream_id && ms[k as int].iova == iova);
                    assert forall|a: int, b: int|
                        0 <= a < ms.len() && 0 <= b < ms.len() && a != b implies !((#[trigger] ms[a]).stream_id
                        == (#[trigger] ms[b]).stream_id && ms[a].iova == ms[b].iova) by {
                        assert(before[a].stream_id == ms[a].stream_id && before[a].iova == ms[a].iova);
                        assert(before[b].stream_id == ms[b].stream_id && before[b].iova == ms[b].iova);
                    }
                }
            },
            None => {
                self.mappings.push(mapping);
                proof {
                    let ms = self.mappings@;
                    let n = before.len() as int;
                    assert(ms[n].stream_id == stream_id && ms[n].iova == iova);
                    assert forall|a: int, b: int|
                        0 <= a < ms.len() && 0 <= b < ms.len() && a != b implies !((#[trigger] ms[a]).stream_id
                        == (#[trigger] ms[b]).stream_id && ms[a].iova == ms[b].iova) by {
                        if a < n && b < n {
                            assert(before[a] == ms[a] && before[b] == ms[b]);
                        } else if a < n {
                            assert(before[a] == ms[a]);
                        } else {
                            assert(before[b] == ms[b]);
                        }
                    }
                }
            },
        }
        self.global_stats.mappings_created = self.global_stats.mappings_created.wrapping_add(1);
        Ok(iova)
    }

    /// Removes the mapping of `(stream_id, iova)`, unmaps it on the device
    /// when there is one, and releases its IOVA range.
    pub fn unmap_dma(&mut self, stream_id: StreamId, iova: IOVA) -> (res: Result<(), &'static str>)
        requires
            old(self).wf(),
        ensures
            final(self).wf(),
            final(self).has_device() == old(self).has_device(),
            !has_mapping(old(self).mappings_view(), stream_id, iova) ==> res == Err::<(), &'static str>(
                "Mapping not found",
            ),
            !has_mapping(old(self).mappings_view(), stream_id, iova) ==> final(self).mappings_view() == old(self).mappings_view() && final(self).regions_view() == old(self).regions_view(),
            has_mapping(old(self).mappings_view(), stream_id, iova) ==> !has_mapping(
                final(self).mappings_view(),
                stream_id,
                iova,
            ),
            res is Ok ==> (exists|i: int| first_owned(old(self).regions_view(), iova, stream_id, i))
                && final(self).stats_view().mappings_removed == old(self).stats_view().mappings_removed.wrapping_add(1),
    {
        match self.find_mapping(stream_id, iova) {
            Some(k) => {
                let ghost before = self.mappings@;
                let mapping = self.mappings.remove(k);
                proof {
                    let ms = self.mappings@;
                    assert(ms == before.remove(k as int));
                    assert forall|a: int, b: int|
                        0 <= a < ms.len() && 0 <= b < ms.len() && a != b implies !((#[trigger] ms[a]).stream_id
                        == (#[trigger] ms[b]).stream_id && ms[a].iova == ms[b].iova) by {
                        let a2 = if a < k { a } else { a + 1 };
                        let b2 = if b < k { b } else { b + 1 };
                        assert(ms[a] == before[a2] && ms[b] == before[b2]);
                    }
                    if has_mapping(ms, stream_id, iova) {
                        let j = choose|j: int|
                            0 <= j < ms.len() && (#[trigger] ms[j]).stream_id == stream_id && ms[j].iova == iova;
                        let j2 = if j < k { j } else { j + 1 };
                        assert(ms[j] == before[j2]);
                        assert(false);
                    }
                }
                let mut dev = self.device.take();
                match &mut dev {
                    Some(d) => {
                        let r = d.unmap_pages(stream_id, iova, mapping.size);
                        if let Err(e) = r {
                            self.device = dev;
                            return Err(e);
                        }
                    },
                    None => {},
                }
                self.device = dev;
                let ghost pre_regions = self.iova_allocator.regions@;
                proof {
                    assert(pre_regions == old(self).regions_view());
                }
                match self.iova_allocator.free(iova, stream_id) {
                    Ok(()) => {},
                    Err(e) => {
                        return Err(e);
                    },
                }
                self.global_stats.mappings_removed = self.global_stats.mappings_removed.wrapping_add(1);
                Ok(())
            },
            None => Err("Mapping not found"),
        }
    }

    /// Creates the stream `stream_id` on the device with address space
    /// `stream_id mod 256` and translation table `ttb`.
    pub fn create_stream(&mut self, stream_id: StreamId, ttb: u64) -> (res: Result<ASID, &'static str>)
        requires
            old(self).wf(),
        ensures
            final(self).wf(),
            final(self).has_device() == old(self).has_device(),
            !old(self).has_device() ==> res == Err::<ASID, &'static str>("SMMU not available"),
            res is Ok ==> res == Ok::<ASID, &'static str>(((stream_id as u16) % 256) as u16),
            final(self).mappings_view() == old(self).mappings_view(),
            final(self).regions_view() == old(self).regions_view(),
            old(self).device_view() matches Some(d) ==> (res is Ok <==> stream_id <= d.stream_table.max_stream_id
                && next_producer(d.command_queue) != d.command_queue.consumer),
            res is Ok ==> (old(self).device_view() matches Some(d) && final(self).device_view() matches Some(d2)
                && has_stream(d2.stream_table.entries@, stream_id) && d2.command_queue.producer == next_producer(
                d.command_queue,
            ) && d2.command_queue.consumer == d.command_queue.consumer && d2.command_queue.size
                == d.command_queue.size),
    {
        let mut dev = self.device.take();
        let res = match &mut dev {
            Some(d) => {
                let asid: u16 = (stream_id as u16) % 256;
                match d.create_stream(stream_id, asid, ttb) {
                    Ok(()) => Ok(asid),
                    Err(e) => Err(e),
                }
            },
            None => Err("SMMU not available"),
        };
        self.device = dev;
        res
    }
}


/// Initializes the SMMU subsystem with the outcome of probing the first
/// platform base address; it always succeeds.
pub fn init(manager: &mut SMMUManager, probed: Result<SMMUDevice, &'static str>) -> (res: Result<(), &'static str>)
    requires
        old(manager).wf(),
        match probed {
            Ok(d) => d.queue_ok() && streams_unique(d.stream_table.entries@),
            Err(_) => true,
        },
    ensures
        final(manager).wf(),
        res == Ok::<(), &'static str>(()),
        probed is Ok ==> final(manager).has_device(),
{
    let _ = manager.init(probed);
    Ok(())
}

/// Creates a device stream through `manager`.
pub fn create_stream(manager: &mut SMMUManager, stream_id: StreamId, ttb: u64) -> (res: Result<ASID, &'static str>)
    requires
        old(manager).wf(),
    ensures
        final(manager).wf(),
        !old(manager).has_device() ==> res == Err::<ASID, &'static str>("SMMU not available"),
        res is Ok ==> res == Ok::<ASID, &'static str>(((stream_id as u16) % 256) as u16),
{
    manager.create_stream(stream_id, ttb)
}

/// Maps a DMA buffer through `manager`.
pub fn map_dma(manager: &mut SMMUManager, stream_id: StreamId, pa: u64, size: usize, permissions: StreamPermissions) -> (res:
    Result<IOVA, &'static str>)
    requires
        old(manager).wf(),
        size <= usize::MAX - 0xFFF,
    ensures
        final(manager).wf(),
        final(manager).has_device() == old(manager).has_device(),
        (forall|i: int|
            0 <= i < old(manager).regions_view().len() ==> !region_fits(
                #[trigger] old(manager).regions_view()[i],
                aligned_request(size),
            )) ==> res == Err::<IOVA, &'static str>("No suitable IOVA range available")
            && final(manager).regions_view() == old(manager).regions_view()
            && final(manager).mappings_view() == old(manager).mappings_view(),
        res is Ok ==> (exists|i: int|
            first_fit(old(manager).regions_view(), aligned_request(size), i) && res == Ok::<IOVA, &'static str>(
                old(manager).regions_view()[i].start,
            ) && final(manager).regions_view() == regions_after_alloc(
                old(manager).regions_view(),
                i,
                aligned_request(size),
                stream_id,
            )) && has_mapping(final(manager).mappings_view(), stream_id, res->Ok_0)
            && final(manager).stats_view().mappings_created == old(manager).stats_view().mappings_created.wrapping_add(1),
        !old(manager).has_device() && (exists|i: int|
            0 <= i < old(manager).regions_view().len() && region_fits(
                #[trigger] old(manager).regions_view()[i],
                aligned_request(size),
            )) ==> res is Ok,
{
    manager.map_dma(stream_id, pa, size, permissions)
}

/// Unmaps a DMA buffer through `manager`.
pub fn unmap_dma(manager: &mut SMMUManager, stream_id: StreamId, iova: IOVA) -> (res: Result<(), &'static str>)
    requires
        old(manager).wf(),
    ensures
        final(manager).wf(),
        !has_mapping(old(manager).mappings_view(), stream_id, iova) ==> res == Err::<(), &'static str>(
            "Mapping not found",
        ),
        !has_mapping(final(manager).mappings_view(), stream_id, iova),
{
    manager.unmap_dma(stream_id, iova)
}

} // verus!
