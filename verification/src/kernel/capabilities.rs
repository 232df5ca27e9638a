//! Capability-based security: rights bitmasks, a registry of capabilities,
//! per-entity capability spaces, derivation with rights attenuation and
//! revocation of a capability together with its derivatives.

use vstd::prelude::*;

verus! {

/// Capability object types.
#[derive(Clone, Copy, PartialEq, Eq, Debug)]
pub enum CapabilityType {
    Memory,
    Page,
    Frame,
    Process,
    Thread,
    Signal,
    Port,
    Interrupt,
    DMA,
    AIModel,
    AIInference,
    NeuralEngine,
    AIData,
    Network,
    Socket,
    File,
    Directory,
    Time,
    Random,
    Debug,
    Crypto,
    TrustZone,
    TPM,
    Root,
}

/// Capability permissions as a bitmask.
#[derive(Clone, Copy, PartialEq, Eq, Debug)]
pub struct CapabilityRights(pub u32);

impl CapabilityRights {
    pub const READ: u32 = 1u32;
    pub const WRITE: u32 = 2u32;
    pub const EXECUTE: u32 = 4u32;
    pub const DERIVE: u32 = 8u32;
    pub const GRANT: u32 = 16u32;
    pub const REVOKE: u32 = 32u32;
    pub const TRANSFER: u32 = 64u32;
    pub const AI_TRAIN: u32 = 0x1_0000u32;
    pub const AI_INFER: u32 = 0x2_0000u32;
    pub const AI_PROFILE: u32 = 0x4_0000u32;
    pub const AI_SECURE: u32 = 0x8_0000u32;

    pub fn new(rights: u32) -> (r: Self)
        ensures
            r.0 == rights,
    {
        CapabilityRights(rights)
    }

    /// True when at least one bit of `right` is held.
    pub fn has(&self, right: u32) -> (r: bool)
        ensures
            r == (self.0 & right != 0),
    {
        (self.0 & right) != 0
    }

    pub fn grant(&mut self, right: u32)
        ensures
            final(self).0 == old(self).0 | right,
    {
        self.0 = self.0 | right;
    }

    pub fn revoke(&mut self, right: u32)
        ensures
            final(self).0 == old(self).0 & !right,
    {
        self.0 = self.0 & !right;
    }

    pub fn intersect(&self, other: CapabilityRights) -> (r: CapabilityRights)
        ensures
            r.0 == self.0 & other.0,
    {
        CapabilityRights(self.0 & other.0)
    }
}

/// Every right of `sub` is also a right of `sup`.
pub open spec fn rights_subset(sub: u32, sup: u32) -> bool {
    sub & sup == sub
}

/// The intersection of two rights masks holds no right that either lacks.
pub proof fn lemma_intersect_attenuates(a: u32, b: u32)
    ensures
        rights_subset(a & b, a),
        rights_subset(a & b, b),
{
    assert((a & b) & a == a & b && (a & b) & b == a & b) by (bit_vector);
}

/// Granting a right makes it held; revoking it makes it absent; neither
/// touches any other bit.
pub proof fn lemma_grant_revoke(x: u32, right: u32, other: u32)
    requires
        right != 0,
        other & right == 0,
    ensures
        (x | right) & right != 0,
        (x & !right) & right == 0,
        (x | right) & other == x & other,
        (x & !right) & other == x & other,
{
    assert({
        &&& (x | right) & right == right
        &&& (x & !right) & right == 0
        &&& other & right == 0 ==> (x | right) & other == x & other
        &&& other & right == 0 ==> (x & !right) & other == x & other
    }) by (bit_vector);
}

/// Unique capability identifier.
pub type CapabilityId = u64;

/// Data classification for AI capabilities.
#[derive(Clone, Copy, PartialEq, Eq, Debug)]
pub enum DataClassification {
    Public,
    Internal,
    Confidential,
    Secret,
}

/// AI-specific capability metadata.
#[derive(Clone, Copy, Debug)]
pub struct AiCapabilityMetadata {
    pub model_hash: [u8; 32],
    pub security_level: u8,
    pub max_latency_us: u32,
    pub data_classification: DataClassification,
}

/// Capability object.
#[derive(Clone, Copy, Debug)]
pub struct Capability {
    pub id: CapabilityId,
    pub cap_type: CapabilityType,
    pub rights: CapabilityRights,
    pub address: u64,
    pub size: usize,
    pub parent: Option<CapabilityId>,
    pub owner: u32,
    pub created_at: u64,
    pub ref_count: u32,
    pub ai_metadata: Option<AiCapabilityMetadata>,
}

/// Context for capability derivation.
#[derive(Debug)]
pub enum DerivationContext {
    Split { offset: usize, new_size: usize },
    Restrict { removed_rights: u32 },
    AiModelLoad { model_id: u32 },
    ProcessCreate { pid: u32 },
    Custom { description: String },
}

/// Capability derivation record.
#[derive(Debug)]
pub struct CapabilityDerivation {
    pub parent_id: CapabilityId,
    pub child_id: CapabilityId,
    pub timestamp: u64,
    pub context: DerivationContext,
}

/// Capability usage statistics.
#[derive(Clone, Copy, Debug)]
pub struct CapabilityStats {
    pub created: u64,
    pub revoked: u64,
    pub access_denied: u64,
    pub ai_operations: u64,
}

impl CapabilityStats {
    pub fn zero() -> (r: Self)
        ensures
            r.created == 0 && r.revoked == 0 && r.access_denied == 0 && r.ai_operations == 0,
    {
        CapabilityStats { created: 0, revoked: 0, access_denied: 0, ai_operations: 0 }
    }
}

/// Capability space of one process or entity.
pub struct CapabilitySpace {
    pub entity_id: u32,
    pub capabilities: Vec<Capability>,
    pub derivations: Vec<CapabilityDerivation>,
    pub stats: CapabilityStats,
}


/// Some capability in `s` carries identifier `id`.
pub open spec fn seq_has_id(s: Seq<Capability>, id: u64) -> bool {
    exists|i: int| 0 <= i < s.len() && #[trigger] s[i].id == id
}

/// No identifier occurs twice in `s`.
pub open spec fn ids_unique(s: Seq<Capability>) -> bool {
    forall|i: int, j: int|
        0 <= i < s.len() && 0 <= j < s.len() && i != j ==> #[trigger] s[i].id != #[trigger] s[j].id
}

/// Every identifier in `s` is below `bound`.
pub open spec fn ids_below(s: Seq<Capability>, bound: u64) -> bool {
    forall|i: int| 0 <= i < s.len() ==> #[trigger] s[i].id < bound
}

/// The capability of `s` with identifier `id` (meaningful when present and unique).
pub open spec fn cap_of(s: Seq<Capability>, id: u64) -> Capability {
    s[choose|i: int| 0 <= i < s.len() && #[trigger] s[i].id == id]
}

/// `s` holds capability `id` with every right of `required`.
pub open spec fn grants(s: Seq<Capability>, id: u64, required: u32) -> bool {
    exists|i: int| 0 <= i < s.len() && #[trigger] s[i].id == id && s[i].rights.0 & required == required
}

/// The capability that a creation or derivation installs.
pub open spec fn fresh_capability(
    id: u64,
    cap_type: CapabilityType,
    rights: CapabilityRights,
    address: u64,
    size: usize,
    parent: Option<u64>,
    owner: u32,
    now: u64,
    meta: Option<AiCapabilityMetadata>,
) -> Capability {
    Capability {
        id,
        cap_type,
        rights,
        address,
        size,
        parent,
        owner,
        created_at: now,
        ref_count: 1,
        ai_metadata: meta,
    }
}

/// Global capability manager.
pub struct CapabilityManager {
    next_id: u64,
    registry: Vec<Capability>,
    spaces: Vec<CapabilitySpace>,
    global_stats: CapabilityStats,
}

/// A derived capability's identifier exceeds its parent's.
pub open spec fn parent_below(c: Capability) -> bool {
    match c.parent {
        Some(p) => p < c.id,
        None => true,
    }
}

/// No identifier is held in two different spaces.
pub open spec fn spaces_disjoint(sp: Seq<CapabilitySpace>) -> bool {
    forall|i: int, j: int, a: int, b: int|
        0 <= i < sp.len() && 0 <= j < sp.len() && i != j && 0 <= a < sp[i].capabilities@.len() && 0 <= b
            < sp[j].capabilities@.len() ==> #[trigger] sp[i].capabilities@[a].id != #[trigger] sp[j].capabilities@[b].id
}

/// Every capability in the spaces has a parent older than itself.
pub open spec fn parents_below(sp: Seq<CapabilitySpace>) -> bool {
    forall|i: int, a: int|
        0 <= i < sp.len() && 0 <= a < sp[i].capabilities@.len() ==> parent_below(#[trigger] sp[i].capabilities@[a])
}

/// No space holds a capability with identifier `id`.
pub open spec fn id_unheld(sp: Seq<CapabilitySpace>, id: u64) -> bool {
    forall|i: int, a: int|
        0 <= i < sp.len() && 0 <= a < sp[i].capabilities@.len() ==> (#[trigger] sp[i].capabilities@[a]).id != id
}

/// Two space lists with the same entities and capabilities, index by index.
pub open spec fn same_space_caps(a: Seq<CapabilitySpace>, b: Seq<CapabilitySpace>) -> bool {
    &&& a.len() == b.len()
    &&& forall|i: int|
        0 <= i < a.len() ==> (#[trigger] a[i]).entity_id == b[i].entity_id
            && a[i].capabilities@ == b[i].capabilities@
}

spec fn spaces_has(s: Seq<CapabilitySpace>, e: u32) -> bool {
    exists|i: int| 0 <= i < s.len() && #[trigger] s[i].entity_id == e
}

spec fn spaces_index(s: Seq<CapabilitySpace>, e: u32) -> int {
    choose|i: int| 0 <= i < s.len() && #[trigger] s[i].entity_id == e
}

spec fn spaces_caps(s: Seq<CapabilitySpace>, e: u32) -> Seq<Capability> {
    if spaces_has(s, e) {
        s[spaces_index(s, e)].capabilities@
    } else {
        Seq::empty()
    }
}

impl CapabilityManager {
    pub closed spec fn next_id_spec(&self) -> u64 {
        self.next_id
    }

    pub closed spec fn registry_view(&self) -> Seq<Capability> {
        self.registry@
    }

    pub closed spec fn stats_view(&self) -> CapabilityStats {
        self.global_stats
    }

    /// Entity `e` owns a capability space.
    pub closed spec fn has_space(&self, e: u32) -> bool {
        spaces_has(self.spaces@, e)
    }

    closed spec fn space_index(&self, e: u32) -> int {
        spaces_index(self.spaces@, e)
    }

    /// The capabilities held in the space of entity `e` (empty without one).
    pub closed spec fn space_caps(&self, e: u32) -> Seq<Capability> {
        spaces_caps(self.spaces@, e)
    }

    /// The statistics of the space of entity `e`.
    pub closed spec fn space_stats(&self, e: u32) -> CapabilityStats {
        self.spaces@[self.space_index(e)].stats
    }

    /// Internal consistency of the manager.
    pub closed spec fn wf(&self) -> bool {
        &&& self.next_id >= 1
        &&& ids_unique(self.registry@)
        &&& ids_below(self.registry@, self.next_id)
        &&& forall|i: int, j: int|
            0 <= i < self.spaces@.len() && 0 <= j < self.spaces@.len() && i != j
                ==> #[trigger] self.spaces@[i].entity_id != #[trigger] self.spaces@[j].entity_id
        &&& forall|i: int|
            0 <= i < self.spaces@.len() ==> ids_unique(#[trigger] self.spaces@[i].capabilities@)
                && ids_below(self.spaces@[i].capabilities@, self.next_id)
        &&& spaces_disjoint(self.spaces@)
        &&& parents_below(self.spaces@)
    }

    /// Replacing spaces by ones with the same capabilities keeps the
    /// manager consistent.
    proof fn lemma_wf_same_caps(a: &Self, b: &Self)
        requires
            a.wf(),
            same_space_caps(a.spaces@, b.spaces@),
            a.next_id == b.next_id,
            a.registry == b.registry,
        ensures
            b.wf(),
    {
        let sa = a.spaces@;
        let sb = b.spaces@;
        assert forall|i: int, j: int|
            0 <= i < sb.len() && 0 <= j < sb.len() && i != j implies #[trigger] sb[i].entity_id != #[trigger] sb[j].entity_id by {
            assert(sa[i].entity_id != sa[j].entity_id);
        }
        assert forall|i: int| 0 <= i < sb.len() implies ids_unique(#[trigger] sb[i].capabilities@)
            && ids_below(sb[i].capabilities@, b.next_id) by {
            assert(sb[i].capabilities@ == sa[i].capabilities@);
        }
        assert forall|i: int, j: int, x: int, y: int|
            0 <= i < sb.len() && 0 <= j < sb.len() && i != j && 0 <= x < sb[i].capabilities@.len() && 0 <= y
                < sb[j].capabilities@.len() implies #[trigger] sb[i].capabilities@[x].id != #[trigger] sb[j].capabilities@[y].id by {
            assert(sb[i].capabilities@ == sa[i].capabilities@);
            assert(sb[j].capabilities@ == sa[j].capabilities@);
            assert(sa[i].capabilities@[x].id != sa[j].capabilities@[y].id);
        }
        assert forall|i: int, x: int| 0 <= i < sb.len() && 0 <= x < sb[i].capabilities@.len() implies parent_below(
            #[trigger] sb[i].capabilities@[x],
        ) by {
            assert(sb[i].capabilities@ == sa[i].capabilities@);
            assert(parent_below(sa[i].capabilities@[x]));
        }
    }

    /// The registry holds each identifier once, and every identifier in it
    /// is below the next one to be issued.
    pub proof fn lemma_registry_ids(&self)
        requires
            self.wf(),
        ensures
            ids_unique(self.registry_view()),
            ids_below(self.registry_view(), self.next_id_spec()),
    {
    }

    /// Every capability held in a space has an identifier below the next
    /// one to be issued.
    pub proof fn lemma_space_ids_below(&self, e: u32)
        requires
            self.wf(),
        ensures
            ids_below(self.space_caps(e), self.next_id_spec()),
    {
        if self.has_space(e) {
            let i = self.space_index(e);
            assert(self.spaces@[i].entity_id == e);
            assert(ids_below(self.spaces@[i].capabilities@, self.next_id));
        }
    }

    proof fn lemma_space_at(&self, i: int)
        requires
            self.wf(),
            0 <= i < self.spaces@.len(),
        ensures
            self.has_space(self.spaces@[i].entity_id),
            self.space_index(self.spaces@[i].entity_id) == i,
            self.space_caps(self.spaces@[i].entity_id) == self.spaces@[i].capabilities@,
            self.space_stats(self.spaces@[i].entity_id) == self.spaces@[i].stats,
    {
        let e = self.spaces@[i].entity_id;
        assert(self.spaces@[i].entity_id == e);
        let j = self.space_index(e);
        assert(self.spaces@[j].entity_id == e);
    }

    /// Spaces that agree entity by entity give the same views.
    proof fn lemma_frame(a: &Self, b: &Self, e: u32)
        requires
            a.wf(),
            b.wf(),
            same_space_caps(a.spaces@, b.spaces@),
        ensures
            a.has_space(e) == b.has_space(e),
            a.space_caps(e) == b.space_caps(e),
    {
        if a.has_space(e) {
            let i = a.space_index(e);
            a.lemma_space_at(i);
            assert(b.spaces@[i].entity_id == e);
            b.lemma_space_at(i);
        } else if b.has_space(e) {
            let i = b.space_index(e);
            b.lemma_space_at(i);
            assert(a.spaces@[i].entity_id == e);
        }
    }

    /// Creates an empty manager; identifiers start at 1.
    pub fn new() -> (r: Self)
        ensures
            r.wf(),
            r.next_id_spec() == 1,
            r.registry_view() == Seq::<Capability>::empty(),
            forall|e: u32| !r.has_space(e),
            r.stats_view() == (CapabilityStats { created: 0, revoked: 0, access_denied: 0, ai_operations: 0 }),
    {
        CapabilityManager {
            next_id: 1,
            registry: Vec::new(),
            spaces: Vec::new(),
            global_stats: CapabilityStats::zero(),
        }
    }

    fn find_space(&self, e: u32) -> (r: Option<usize>)
        requires
            self.wf(),
        ensures
            match r {
                Some(i) => i < self.spaces@.len() && self.spaces@[i as int].entity_id == e
                    && self.space_index(e) == i as int && self.has_space(e),
                None => !self.has_space(e),
            },
    {
        let mut i: usize = 0;
        while i < self.spaces.len()
            invariant
                self.wf(),
                i <= self.spaces@.len(),
                forall|j: int| 0 <= j < i ==> (#[trigger] self.spaces@[j]).entity_id != e,
            decreases self.spaces@.len() - i,
        {
            if self.spaces[i].entity_id == e {
                proof {
                    self.lemma_space_at(i as int);
                }
                return Some(i);
            }
            i = i + 1;
        }
        None
    }

    /// Adds `cap` to the space of `owner`, creating the space when absent.
    fn add_to_space(&mut self, owner: u32, cap: Capability)
        requires
            old(self).wf(),
            cap.id < old(self).next_id,
            !seq_has_id(old(self).space_caps(owner), cap.id),
            id_unheld(old(self).spaces@, cap.id),
            parent_below(cap),
        ensures
            final(self).wf(),
            final(self).next_id == old(self).next_id,
            final(self).registry == old(self).registry,
            final(self).global_stats == old(self).global_stats,
            final(self).has_space(owner),
            final(self).space_caps(owner) == old(self).space_caps(owner).push(cap),
            final(self).space_stats(owner).created == (if old(self).has_space(owner) {
                old(self).space_stats(owner).created
            } else {
                0u64
            }).wrapping_add(1),
            final(self).space_stats(owner).revoked == (if old(self).has_space(owner) {
                old(self).space_stats(owner).revoked
            } else {
                0u64
            }),
            forall|e: u32|
                #![trigger final(self).space_caps(e)]
                #![trigger final(self).has_space(e)]
                e != owner ==> final(self).has_space(e) == old(self).has_space(e)
                    && final(self).space_caps(e) == old(self).space_caps(e),
    {
        let ghost pre = *old(self);
        match self.find_space(owner) {
            Some(i) => {
                proof {
                    pre.lemma_space_at(i as int);
                }
                self.spaces[i].capabilities.push(cap);
                self.spaces[i].stats.created = self.spaces[i].stats.created.wrapping_add(1);
                proof {
                    assert forall|j: int| 0 <= j < self.spaces@.len() implies ids_unique(
                        #[trigger] self.spaces@[j].capabilities@,
                    ) && ids_below(self.spaces@[j].capabilities@, self.next_id) by {
                        if j == i {
                            assert(self.spaces@[j].capabilities@ == pre.spaces@[j].capabilities@.push(cap));
                        }
                    }
                    let sp = self.spaces@;
                    assert forall|j: int| 0 <= j < sp.len() && j != i implies #[trigger] sp[j].capabilities@ == pre.spaces@[j].capabilities@ by {}
                    assert(sp[i as int].capabilities@ == pre.spaces@[i as int].capabilities@.push(cap));
                    assert forall|a: int, b: int, x: int, y: int|
                        0 <= a < sp.len() && 0 <= b < sp.len() && a != b && 0 <= x < sp[a].capabilities@.len() && 0 <= y
                            < sp[b].capabilities@.len() implies #[trigger] sp[a].capabilities@[x].id != #[trigger] sp[b].capabilities@[y].id by {
                        if a == i && x == pre.spaces@[a].capabilities@.len() {
                            assert(sp[b].capabilities@[y] == pre.spaces@[b].capabilities@[y]);
                        } else if b == i && y == pre.spaces@[b].capabilities@.len() {
                            assert(sp[a].capabilities@[x] == pre.spaces@[a].capabilities@[x]);
                        } else {
                            assert(sp[a].capabilities@[x] == pre.spaces@[a].capabilities@[x]);
                            assert(sp[b].capabilities@[y] == pre.spaces@[b].capabilities@[y]);
                        }
                    }
                    assert forall|a: int, x: int| 0 <= a < sp.len() && 0 <= x < sp[a].capabilities@.len() implies parent_below(
                        #[trigger] sp[a].capabilities@[x],
                    ) by {
                        if !(a == i && x == pre.spaces@[a].capabilities@.len()) {
                            assert(sp[a].capabilities@[x] == pre.spaces@[a].capabilities@[x]);
                        }
                    }
                    assert(self.wf());
                    self.lemma_space_at(i as int);
                    assert forall|e: u32| e != owner implies self.has_space(e) == pre.has_space(e)
                        && self.space_caps(e) == pre.space_caps(e) by {
                        if pre.has_space(e) {
                            let k = pre.space_index(e);
                            pre.lemma_space_at(k);
                            assert(self.spaces@[k].entity_id == e);
                            self.lemma_space_at(k);
                        } else if self.has_space(e) {
                            let k = self.space_index(e);
                            self.lemma_space_at(k);
                            assert(pre.spaces@[k].entity_id == e);
                        }
                    }
                }
            },
            None => {
                let mut caps: Vec<Capability> = Vec::new();
                caps.push(cap);
                let space = CapabilitySpace {
                    entity_id: owner,
                    capabilities: caps,
                    derivations: Vec::new(),
                    stats: CapabilityStats { created: 1, revoked: 0, access_denied: 0, ai_operations: 0 },
                };
                self.spaces.push(space);
                proof {
                    let n = pre.spaces@.len() as int;
                    assert(self.spaces@[n].capabilities@ == seq![cap]);
                    let sp = self.spaces@;
                    assert forall|j: int| 0 <= j < n implies #[trigger] sp[j] == pre.spaces@[j] by {}
                    assert forall|a: int, b: int, x: int, y: int|
                        0 <= a < sp.len() && 0 <= b < sp.len() && a != b && 0 <= x < sp[a].capabilities@.len() && 0 <= y
                            < sp[b].capabilities@.len() implies #[trigger] sp[a].capabilities@[x].id != #[trigger] sp[b].capabilities@[y].id by {
                        if a == n {
                            assert(sp[b].capabilities@[y] == pre.spaces@[b].capabilities@[y]);
                        } else if b == n {
                            assert(sp[a].capabilities@[x] == pre.spaces@[a].capabilities@[x]);
                        } else {
                            assert(sp[a].capabilities@[x] == pre.spaces@[a].capabilities@[x]);
                            assert(sp[b].capabilities@[y] == pre.spaces@[b].capabilities@[y]);
                        }
                    }
                    assert forall|a: int, x: int| 0 <= a < sp.len() && 0 <= x < sp[a].capabilities@.len() implies parent_below(
                        #[trigger] sp[a].capabilities@[x],
                    ) by {
                        if a < n {
                            assert(sp[a].capabilities@[x] == pre.spaces@[a].capabilities@[x]);
                        }
                    }
                    assert(self.wf());
                    self.lemma_space_at(n);
                    assert(pre.space_caps(owner) == Seq::<Capability>::empty());
                    assert(seq![cap] == Seq::<Capability>::empty().push(cap));
                    assert forall|e: u32| e != owner implies self.has_space(e) == pre.has_space(e)
                        && self.space_caps(e) == pre.space_caps(e) by {
                        if pre.has_space(e) {
                            let k = pre.space_index(e);
                            pre.lemma_space_at(k);
                            assert(self.spaces@[k].entity_id == e);
                            self.lemma_space_at(k);
                        } else if self.has_space(e) {
                            let k = self.space_index(e);
                            self.lemma_space_at(k);
                            assert(k != n);
                            assert(pre.spaces@[k].entity_id == e);
                        }
                    }
                }
            },
        }
    }
}


/// Arithmetic of a derivation stays in range: a split's end fits in `usize`
/// and, when the split lies inside the parent, its start address fits in `u64`.
pub open spec fn derive_in_range(reg: Seq<Capability>, parent_id: u64, context: DerivationContext) -> bool {
    match context {
        DerivationContext::Split { offset, new_size } => seq_has_id(reg, parent_id) ==> (offset
            + new_size <= usize::MAX && (offset + new_size <= cap_of(reg, parent_id).size
            ==> cap_of(reg, parent_id).address + offset <= u64::MAX)),
        _ => true,
    }
}

/// The split context lies outside the parent's bounds.
pub open spec fn split_exceeds(context: DerivationContext, parent_size: usize) -> bool {
    match context {
        DerivationContext::Split { offset, new_size } => offset + new_size > parent_size,
        _ => false,
    }
}

/// Address and size of a derived capability.
pub open spec fn derived_range(context: DerivationContext, parent: Capability) -> (u64, usize) {
    match context {
        DerivationContext::Split { offset, new_size } => ((parent.address + offset) as u64, new_size),
        _ => (parent.address, parent.size),
    }
}

impl CapabilityManager {
    fn find_in_registry(&self, id: u64) -> (r: Option<usize>)
        requires
            ids_unique(self.registry@),
        ensures
            match r {
                Some(i) => i < self.registry@.len() && self.registry@[i as int].id == id
                    && seq_has_id(self.registry@, id) && cap_of(self.registry@, id) == self.registry@[i as int],
                None => !seq_has_id(self.registry@, id),
            },
    {
        let mut i: usize = 0;
        while i < self.registry.len()
            invariant
                ids_unique(self.registry@),
                i <= self.registry@.len(),
                forall|j: int| 0 <= j < i ==> (#[trigger] self.registry@[j]).id != id,
            decreases self.registry@.len() - i,
        {
            if self.registry[i].id == id {
                proof {
                    let k = choose|k: int| 0 <= k < self.registry@.len() && #[trigger] self.registry@[k].id == id;
                    assert(self.registry@[i as int].id == id);
                }
                return Some(i);
            }
            i = i + 1;
        }
        None
    }

    /// Creates a capability owned by `owner`; `now` is the creation timestamp.
    pub fn create_capability(
        &mut self,
        cap_type: CapabilityType,
        rights: CapabilityRights,
        address: u64,
        size: usize,
        owner: u32,
        now: u64,
    ) -> (res: Result<CapabilityId, &'static str>)
        requires
            old(self).wf(),
            old(self).next_id_spec() < u64::MAX,
        ensures
            final(self).wf(),
            res == Ok::<CapabilityId, &'static str>(old(self).next_id_spec()),
            final(self).next_id_spec() == old(self).next_id_spec() + 1,
            final(self).registry_view() == old(self).registry_view().push(
                fresh_capability(old(self).next_id_spec(), cap_type, rights, address, size, None, owner, now, None),
            ),
            final(self).has_space(owner),
            final(self).space_caps(owner) == old(self).space_caps(owner).push(
                fresh_capability(old(self).next_id_spec(), cap_type, rights, address, size, None, owner, now, None),
            ),
            forall|e: u32|
                #![trigger final(self).space_caps(e)]
                #![trigger final(self).has_space(e)]
                e != owner ==> final(self).has_space(e) == old(self).has_space(e)
                    && final(self).space_caps(e) == old(self).space_caps(e),
            final(self).stats_view() == (CapabilityStats {
                created: old(self).stats_view().created.wrapping_add(1),
                ..old(self).stats_view()
            }),
    {
        let cap_id = self.next_id;
        self.next_id = self.next_id + 1;
        let capability = Capability {
            id: cap_id,
            cap_type,
            rights,
            address,
            size,
            parent: None,
            owner,
            created_at: now,
            ref_count: 1,
            ai_metadata: None,
        };
        self.registry.push(capability);
        proof {
            assert(!seq_has_id(self.space_caps(owner), cap_id));
            let sp = self.spaces@;
            assert forall|i: int, a: int| 0 <= i < sp.len() && 0 <= a < sp[i].capabilities@.len() implies (#[trigger] sp[i].capabilities@[a]).id != cap_id by {
                assert(ids_below(sp[i].capabilities@, cap_id));
            }
        }
        self.global_stats.created = self.global_stats.created.wrapping_add(1);
        self.add_to_space(owner, capability);
        Ok(cap_id)
    }

    /// Creates an AI capability; the registry entry carries the metadata.
    pub fn create_ai_capability(
        &mut self,
        cap_type: CapabilityType,
        rights: CapabilityRights,
        model_hash: [u8; 32],
        security_level: u8,
        max_latency_us: u32,
        owner: u32,
        now: u64,
    ) -> (res: Result<CapabilityId, &'static str>)
        requires
            old(self).wf(),
            old(self).next_id_spec() < u64::MAX,
        ensures
            final(self).wf(),
            res == Ok::<CapabilityId, &'static str>(old(self).next_id_spec()),
            final(self).next_id_spec() == old(self).next_id_spec() + 1,
            final(self).registry_view() == old(self).registry_view().push(
                fresh_capability(
                    old(self).next_id_spec(),
                    cap_type,
                    rights,
                    0,
                    0,
                    None,
                    owner,
                    now,
                    Some(
                        AiCapabilityMetadata {
                            model_hash,
                            security_level,
                            max_latency_us,
                            data_classification: DataClassification::Confidential,
                        },
                    ),
                ),
            ),
            final(self).has_space(owner),
            final(self).space_caps(owner) == old(self).space_caps(owner).push(
                fresh_capability(old(self).next_id_spec(), cap_type, rights, 0, 0, None, owner, now, None),
            ),
            forall|e: u32|
                #![trigger final(self).space_caps(e)]
                #![trigger final(self).has_space(e)]
                e != owner ==> final(self).has_space(e) == old(self).has_space(e)
                    && final(self).space_caps(e) == old(self).space_caps(e),
            final(self).stats_view() == (CapabilityStats {
                created: old(self).stats_view().created.wrapping_add(1),
                ..old(self).stats_view()
            }),
    {
        let ghost pre = *old(self);
        let cap_id = self.create_capability(cap_type, rights, 0, 0, owner, now)?;
        let ghost mid = *self;
        proof {
            let last = self.registry@.len() - 1;
            assert(self.registry@[last].id == cap_id);
        }
        let found = self.find_in_registry(cap_id);
        if let Some(i) = found {
            let ghost before = self.registry@;
            let mut cap = self.registry[i];
            cap.ai_metadata = Some(
                AiCapabilityMetadata {
                    model_hash,
                    security_level,
                    max_latency_us,
                    data_classification: DataClassification::Confidential,
                },
            );
            self.registry.set(i, cap);
            proof {
                assert(i as int == before.len() - 1);
                assert(self.registry@ == pre.registry@.push(cap));
                assert forall|a: int, b: int|
                    0 <= a < self.registry@.len() && 0 <= b < self.registry@.len() && a != b implies
                    #[trigger] self.registry@[a].id != #[trigger] self.registry@[b].id by {
                    assert(before[a].id == self.registry@[a].id);
                    assert(before[b].id == self.registry@[b].id);
                }
                assert forall|a: int| 0 <= a < self.registry@.len() implies #[trigger] self.registry@[a].id
                    < self.next_id by {
                    assert(before[a].id == self.registry@[a].id);
                }
            }
        }
        proof {
            assert(self.spaces == mid.spaces);
            assert forall|e: u32| #[trigger] self.has_space(e) == mid.has_space(e)
                && self.space_caps(e) == mid.space_caps(e) by {
                if mid.has_space(e) {
                    assert(self.has_space(e));
                }
            }
        }
        Ok(cap_id)
    }
}


impl CapabilityManager {
    /// Derivation records kept in the space of entity `e`.
    pub closed spec fn space_derivations(&self, e: u32) -> Seq<CapabilityDerivation> {
        self.spaces@[self.space_index(e)].derivations@
    }

    /// Replaces the statistics of space `i`, keeping every capability view.
    fn set_space_stats(&mut self, i: usize, st: CapabilityStats)
        requires
            old(self).wf(),
            i < old(self).spaces@.len(),
        ensures
            final(self).wf(),
            final(self).next_id == old(self).next_id,
            final(self).registry == old(self).registry,
            final(self).global_stats == old(self).global_stats,
            final(self).spaces@.len() == old(self).spaces@.len(),
            final(self).spaces@[i as int].stats == st,
            forall|e: u32|
                #![trigger final(self).space_caps(e)]
                #![trigger final(self).has_space(e)]
                final(self).has_space(e) == old(self).has_space(e)
                    && final(self).space_caps(e) == old(self).space_caps(e),
            forall|e: u32|
                #![trigger final(self).space_stats(e)]
                e != old(self).spaces@[i as int].entity_id && old(self).has_space(e)
                    ==> final(self).space_stats(e) == old(self).space_stats(e),
            final(self).space_stats(old(self).spaces@[i as int].entity_id) == st,
    {
        let ghost pre = *old(self);
        self.spaces[i].stats = st;
        proof {
            assert(same_space_caps(pre.spaces@, self.spaces@));
            Self::lemma_wf_same_caps(&pre, self);
            assert forall|e: u32| #![trigger self.space_caps(e)] #![trigger self.has_space(e)] self.has_space(e) == pre.has_space(e)
                && self.space_caps(e) == pre.space_caps(e) by {
                Self::lemma_frame(&pre, self, e);
            }
            self.lemma_space_at(i as int);
            assert forall|e: u32| #![trigger self.space_stats(e)]
                e != pre.spaces@[i as int].entity_id && pre.has_space(e) implies self.space_stats(e)
                == pre.space_stats(e) by {
                let k = pre.space_index(e);
                pre.lemma_space_at(k);
                assert(self.spaces@[k].entity_id == e);
                self.lemma_space_at(k);
            }
        }
    }

    /// Appends a derivation record to the space of `e`.
    fn push_derivation(&mut self, e: u32, d: CapabilityDerivation)
        requires
            old(self).wf(),
            old(self).has_space(e),
        ensures
            final(self).wf(),
            final(self).next_id == old(self).next_id,
            final(self).registry == old(self).registry,
            final(self).global_stats == old(self).global_stats,
            forall|x: u32|
                #![trigger final(self).space_caps(x)]
                #![trigger final(self).has_space(x)]
                final(self).has_space(x) == old(self).has_space(x)
                    && final(self).space_caps(x) == old(self).space_caps(x),
            final(self).space_derivations(e) == old(self).space_derivations(e).push(d),
    {
        let ghost pre = *old(self);
        let i = self.find_space(e).unwrap();
        self.spaces[i].derivations.push(d);
        proof {
            assert(same_space_caps(pre.spaces@, self.spaces@));
            Self::lemma_wf_same_caps(&pre, self);
            assert forall|x: u32| #![trigger self.space_caps(x)] #![trigger self.has_space(x)] self.has_space(x) == pre.has_space(x)
                && self.space_caps(x) == pre.space_caps(x) by {
                Self::lemma_frame(&pre, self, x);
            }
            self.lemma_space_at(i as int);
        }
    }

    /// Derives a capability from `parent_id` for `new_owner`; its rights are
    /// the parent's rights intersected with `new_rights`.
    pub fn derive_capability(
        &mut self,
        parent_id: CapabilityId,
        new_rights: CapabilityRights,
        context: DerivationContext,
        new_owner: u32,
        now: u64,
    ) -> (res: Result<CapabilityId, &'static str>)
        requires
            old(self).wf(),
            old(self).next_id_spec() < u64::MAX,
            derive_in_range(old(self).registry_view(), parent_id, context),
        ensures
            final(self).wf(),
            !seq_has_id(old(self).registry_view(), parent_id) ==> res == Err::<CapabilityId, &'static str>(
                "Parent capability not found",
            ) && final(self).next_id_spec() == old(self).next_id_spec(),
            seq_has_id(old(self).registry_view(), parent_id) && cap_of(old(self).registry_view(), parent_id).rights.0
                & CapabilityRights::DERIVE == 0 ==> res == Err::<CapabilityId, &'static str>(
                "Parent capability lacks DERIVE right",
            ) && final(self).next_id_spec() == old(self).next_id_spec(),
            seq_has_id(old(self).registry_view(), parent_id) && cap_of(old(self).registry_view(), parent_id).rights.0
                & CapabilityRights::DERIVE != 0 ==> final(self).next_id_spec() == old(self).next_id_spec() + 1,
            ({
                let p = cap_of(old(self).registry_view(), parent_id);
                seq_has_id(old(self).registry_view(), parent_id) && p.rights.0 & CapabilityRights::DERIVE != 0
                    && split_exceeds(context, p.size) ==> res == Err::<CapabilityId, &'static str>(
                    "Split exceeds parent capability bounds",
                )
            }),
            res is Err ==> final(self).registry_view() == old(self).registry_view()
                && final(self).stats_view() == old(self).stats_view()
                && forall|e: u32|
                #![trigger final(self).space_caps(e)]
                #![trigger final(self).has_space(e)]
                final(self).has_space(e) == old(self).has_space(e)
                    && final(self).space_caps(e) == old(self).space_caps(e),
            res is Err ==> forall|e: u32|
                #![trigger final(self).space_stats(e)]
                #![trigger final(self).space_derivations(e)]
                old(self).has_space(e) ==> final(self).space_stats(e) == old(self).space_stats(e)
                    && final(self).space_derivations(e) == old(self).space_derivations(e),
            ({
                let p = cap_of(old(self).registry_view(), parent_id);
                let child = fresh_capability(
                    old(self).next_id_spec(),
                    p.cap_type,
                    CapabilityRights(p.rights.0 & new_rights.0),
                    derived_range(context, p).0,
                    derived_range(context, p).1,
                    Some(parent_id),
                    new_owner,
                    now,
                    p.ai_metadata,
                );
                seq_has_id(old(self).registry_view(), parent_id) && p.rights.0 & CapabilityRights::DERIVE != 0
                    && !split_exceeds(context, p.size) ==> res == Ok::<CapabilityId, &'static str>(
                    old(self).next_id_spec(),
                ) && final(self).registry_view() == old(self).registry_view().push(child)
                    && final(self).has_space(new_owner) && final(self).space_caps(new_owner) == old(self).space_caps(new_owner).push(child) && final(self).space_derivations(new_owner).last()
                    == (CapabilityDerivation {
                    parent_id,
                    child_id: old(self).next_id_spec(),
                    timestamp: now,
                    context,
                }) && (forall|e: u32|
                    #![trigger final(self).space_caps(e)]
                #![trigger final(self).has_space(e)]
                    e != new_owner ==> final(self).has_space(e) == old(self).has_space(e)
                        && final(self).space_caps(e) == old(self).space_caps(e))
                    && final(self).stats_view() == (CapabilityStats {
                    created: old(self).stats_view().created.wrapping_add(1),
                    ..old(self).stats_view()
                })
            }),
    {
        let ghost pre = *old(self);
        let parent_cap = match self.find_in_registry(parent_id) {
            Some(i) => {
                let cap = self.registry[i];
                if !cap.rights.has(CapabilityRights::DERIVE) {
                    return Err("Parent capability lacks DERIVE right");
                }
                cap
            },
            None => {
                return Err("Parent capability not found");
            },
        };
        let restricted_rights = parent_cap.rights.intersect(new_rights);
        let child_id = self.next_id;
        self.next_id = self.next_id + 1;
        let (new_address, new_size) = match &context {
            DerivationContext::Split { offset, new_size } => {
                if *offset + *new_size > parent_cap.size {
                    return Err("Split exceeds parent capability bounds");
                }
                (parent_cap.address + *offset as u64, *new_size)
            },
            _ => (parent_cap.address, parent_cap.size),
        };
        let child_cap = Capability {
            id: child_id,
            cap_type: parent_cap.cap_type,
            rights: restricted_rights,
            address: new_address,
            size: new_size,
            parent: Some(parent_id),
            owner: new_owner,
            created_at: now,
            ref_count: 1,
            ai_metadata: parent_cap.ai_metadata,
        };
        let derivation = CapabilityDerivation { parent_id, child_id, timestamp: now, context };
        self.registry.push(child_cap);
        self.global_stats.created = self.global_stats.created.wrapping_add(1);
        proof {
            assert(!seq_has_id(self.space_caps(new_owner), child_id));
            let sp = self.spaces@;
            assert forall|i: int, a: int| 0 <= i < sp.len() && 0 <= a < sp[i].capabilities@.len() implies (#[trigger] sp[i].capabilities@[a]).id != child_id by {
                assert(ids_below(sp[i].capabilities@, child_id));
            }
            assert(parent_id < child_id);
        }
        self.add_to_space(new_owner, child_cap);
        self.push_derivation(new_owner, derivation);
        Ok(child_id)
    }

    /// Whether `entity_id` holds `cap_id` with every right in `required_rights`.
    /// A missing space or capability counts as a denied access.
    pub fn check_capability(&mut self, entity_id: u32, cap_id: CapabilityId, required_rights: CapabilityRights) -> (r:
        bool)
        requires
            old(self).wf(),
        ensures
            final(self).wf(),
            r == (old(self).has_space(entity_id) && grants(
                old(self).space_caps(entity_id),
                cap_id,
                required_rights.0,
            )),
            final(self).next_id_spec() == old(self).next_id_spec(),
            final(self).registry_view() == old(self).registry_view(),
            forall|e: u32|
                #![trigger final(self).space_caps(e)]
                #![trigger final(self).has_space(e)]
                final(self).has_space(e) == old(self).has_space(e)
                    && final(self).space_caps(e) == old(self).space_caps(e),
            final(self).stats_view() == (if old(self).has_space(entity_id) {
                old(self).stats_view()
            } else {
                CapabilityStats {
                    access_denied: old(self).stats_view().access_denied.wrapping_add(1),
                    ..old(self).stats_view()
                }
            }),
            forall|e: u32|
                #![trigger final(self).space_stats(e)]
                old(self).has_space(e) ==> final(self).space_stats(e) == (if e == entity_id && !seq_has_id(
                    old(self).space_caps(entity_id),
                    cap_id,
                ) {
                    CapabilityStats {
                        access_denied: old(self).space_stats(e).access_denied.wrapping_add(1),
                        ..old(self).space_stats(e)
                    }
                } else {
                    old(self).space_stats(e)
                }),
    {
        match self.find_space(entity_id) {
            Some(i) => {
                match self.find_in_space(i, cap_id) {
                    Some(j) => {
                        let cap = self.spaces[i].capabilities[j];
                        let intersection = cap.rights.intersect(required_rights);
                        proof {
                            self.lemma_space_at(i as int);
                            let s = self.spaces@[i as int].capabilities@;
                            if grants(s, cap_id, required_rights.0) {
                                let k = choose|k: int|
                                    0 <= k < s.len() && #[trigger] s[k].id == cap_id && s[k].rights.0
                                        & required_rights.0 == required_rights.0;
                                assert(k == j);
                            }
                            if intersection.0 == required_rights.0 {
                                assert(s[j as int].id == cap_id);
                            }
                        }
                        intersection.0 == required_rights.0
                    },
                    None => {
                        proof {
                            self.lemma_space_at(i as int);
                        }
                        let mut st = self.spaces[i].stats;
                        st.access_denied = st.access_denied.wrapping_add(1);
                        self.set_space_stats(i, st);
                        false
                    },
                }
            },
            None => {
                let ghost pre = *self;
                self.global_stats.access_denied = self.global_stats.access_denied.wrapping_add(1);
                proof {
                    assert forall|e: u32| #![trigger self.space_caps(e)] #![trigger self.has_space(e)] self.has_space(e) == pre.has_space(e)
                        && self.space_caps(e) == pre.space_caps(e) by {
                        Self::lemma_frame(&pre, self, e);
                    }
                }
                false
            },
        }
    }

    /// Position of `cap_id` inside space `i`.
    fn find_in_space(&self, i: usize, cap_id: CapabilityId) -> (r: Option<usize>)
        requires
            self.wf(),
            i < self.spaces@.len(),
        ensures
            match r {
                Some(j) => j < self.spaces@[i as int].capabilities@.len()
                    && self.spaces@[i as int].capabilities@[j as int].id == cap_id,
                None => !seq_has_id(self.spaces@[i as int].capabilities@, cap_id),
            },
    {
        let mut j: usize = 0;
        let n = self.spaces[i].capabilities.len();
        while j < n
            invariant
                i < self.spaces@.len(),
                n == self.spaces@[i as int].capabilities@.len(),
                j <= n,
                forall|k: int| 0 <= k < j ==> (#[trigger] self.spaces@[i as int].capabilities@[k]).id != cap_id,
            decreases n - j,
        {
            if self.spaces[i].capabilities[j].id == cap_id {
                return Some(j);
            }
            j = j + 1;
        }
        None
    }

    /// A copy of the registry entry for `cap_id`.
    pub fn get_capability(&self, cap_id: CapabilityId) -> (r: Option<Capability>)
        requires
            self.wf(),
        ensures
            r == (if seq_has_id(self.registry_view(), cap_id) {
                Some(cap_of(self.registry_view(), cap_id))
            } else {
                None
            }),
    {
        match self.find_in_registry(cap_id) {
            Some(i) => Some(self.registry[i]),
            None => None,
        }
    }

    /// Global statistics.
    pub fn get_stats(&self) -> (r: CapabilityStats)
        ensures
            r == self.stats_view(),
    {
        self.global_stats
    }

    /// Counts an AI operation globally and in the space of `entity_id`.
    pub fn record_ai_operation(&mut self, entity_id: u32)
        requires
            old(self).wf(),
        ensures
            final(self).wf(),
            final(self).next_id_spec() == old(self).next_id_spec(),
            final(self).registry_view() == old(self).registry_view(),
            forall|e: u32|
                #![trigger final(self).space_caps(e)]
                #![trigger final(self).has_space(e)]
                final(self).has_space(e) == old(self).has_space(e)
                    && final(self).space_caps(e) == old(self).space_caps(e),
            final(self).stats_view() == (CapabilityStats {
                ai_operations: old(self).stats_view().ai_operations.wrapping_add(1),
                ..old(self).stats_view()
            }),
            old(self).has_space(entity_id) ==> final(self).space_stats(entity_id).ai_operations == old(self).space_stats(entity_id).ai_operations.wrapping_add(1),
    {
        let ghost pre = *self;
        self.global_stats.ai_operations = self.global_stats.ai_operations.wrapping_add(1);
        proof {
            assert forall|e: u32| #![trigger self.space_caps(e)] #![trigger self.has_space(e)] self.has_space(e) == pre.has_space(e)
                && self.space_caps(e) == pre.space_caps(e) by {
                Self::lemma_frame(&pre, self, e);
            }
        }
        if let Some(i) = self.find_space(entity_id) {
            let mut st = self.spaces[i].stats;
            st.ai_operations = st.ai_operations.wrapping_add(1);
            self.set_space_stats(i, st);
        }
    }
}



/// Capability `c` is held in some space and was derived from `p`.
#[verifier::opaque]
pub open spec fn derived_in(m: CapabilityManager, c: u64, p: u64) -> bool {
    exists|e: u32, k: int|
        m.has_space(e) && 0 <= k < m.space_caps(e).len() && (#[trigger] m.space_caps(e)[k]).id == c
            && m.space_caps(e)[k].parent == Some(p)
}

/// `revoker` holds `x` with the REVOKE right.
#[verifier::opaque]
pub open spec fn may_revoke(m: CapabilityManager, revoker: u32, x: u64) -> bool {
    m.has_space(revoker) && grants(m.space_caps(revoker), x, CapabilityRights::REVOKE)
}

/// Revoking `root` as `revoker` takes capability `x`: the root when the
/// revoker may revoke it; any other capability reached from it.
pub open spec fn may_take(m: CapabilityManager, root: u64, revoker: u32, x: u64) -> bool {
    x != root || may_revoke(m, revoker, x)
}

/// `r` is what revoking `root` as `revoker` takes away: `root` when the
/// revoker may revoke it, and then every capability derived, directly or
/// through others, from a capability taken; nothing else.
pub open spec fn revocation_set(m: CapabilityManager, root: u64, revoker: u32, r: Set<u64>) -> bool {
    &&& r.finite()
    &&& forall|x: u64| #[trigger]
        r.contains(x) ==> may_take(m, root, revoker, x) && (x == root || exists|q: u64|
            r.contains(q) && #[trigger] derived_in(m, x, q))
    &&& may_revoke(m, revoker, root) ==> r.contains(root)
    &&& forall|q: u64, c: u64|
        r.contains(q) && #[trigger] derived_in(m, c, q) && may_take(m, root, revoker, c) ==> r.contains(c)
}

/// Capability `k` of space `i` was derived from `p`.
spec fn child_at(sp: Seq<CapabilitySpace>, p: u64, i: int, k: int) -> bool {
    0 <= i < sp.len() && 0 <= k < sp[i].capabilities@.len() && sp[i].capabilities@[k].parent == Some(p)
}

/// The capabilities of `caps` whose identifier is not in `r`.
pub open spec fn without_ids(caps: Seq<Capability>, r: Set<u64>) -> Seq<Capability> {
    caps.filter(|c: Capability| !r.contains(c.id))
}

/// The capabilities of `caps` whose identifier is not in `ids`.
spec fn without_listed(caps: Seq<Capability>, ids: Seq<u64>) -> Seq<Capability> {
    caps.filter(|c: Capability| !ids.contains(c.id))
}

fn contains_id(ids: &Vec<u64>, id: u64) -> (r: bool)
    ensures
        r == ids@.contains(id),
{
    let mut i: usize = 0;
    while i < ids.len()
        invariant
            i <= ids@.len(),
            forall|k: int| 0 <= k < i ==> ids@[k] != id,
        decreases ids@.len() - i,
    {
        if ids[i] == id {
            proof {
                assert(ids@[i as int] == id);
            }
            return true;
        }
        i = i + 1;
    }
    false
}

/// The capabilities of `caps` whose identifier is not in `ids`, in order.
fn filter_caps(caps: &Vec<Capability>, ids: &Vec<u64>) -> (out: Vec<Capability>)
    ensures
        out@ == without_listed(caps@, ids@),
        forall|a: int| #![trigger out@[a]] 0 <= a < out@.len() ==> exists|j: int| 0 <= j < caps@.len() && #[trigger] caps@[j] == out@[a],
        ids_unique(caps@) ==> ids_unique(out@),
        out@.len() <= caps@.len(),
{
    let mut out: Vec<Capability> = Vec::new();
    let mut k: usize = 0;
    proof {
        reveal(Seq::filter);
        assert(caps@.take(0) =~= Seq::<Capability>::empty());
    }
    while k < caps.len()
        invariant
            k <= caps@.len(),
            out@ == without_listed(caps@.take(k as int), ids@),
            forall|a: int| #![trigger out@[a]] 0 <= a < out@.len() ==> exists|j: int| 0 <= j < k && #[trigger] caps@[j] == out@[a],
            ids_unique(caps@) ==> ids_unique(out@),
            out@.len() <= k,
        decreases caps@.len() - k,
    {
        let c = caps[k];
        let keep = !contains_id(ids, c.id);
        let ghost before = out@;
        if keep {
            out.push(c);
        }
        proof {
            reveal(Seq::filter);
            assert(caps@.take(k + 1).drop_last() =~= caps@.take(k as int));
            assert(caps@.take(k + 1).last() == c);
            assert forall|a: int| #![trigger out@[a]] 0 <= a < out@.len() implies exists|j: int| 0 <= j < k + 1 && #[trigger] caps@[j] == out@[a] by {
                if a < before.len() {
                    let j = choose|j: int| 0 <= j < k && #[trigger] caps@[j] == before[a];
                    assert(caps@[j] == out@[a]);
                } else {
                    assert(caps@[k as int] == out@[a]);
                }
            }
            if ids_unique(caps@) && keep {
                assert forall|a: int, b: int| 0 <= a < out@.len() && 0 <= b < out@.len() && a != b implies #[trigger] out@[a].id
                    != #[trigger] out@[b].id by {
                    if a < before.len() && b < before.len() {
                        assert(out@[a] == before[a] && out@[b] == before[b]);
                    } else if a < before.len() {
                        let j = choose|j: int| 0 <= j < k && #[trigger] caps@[j] == before[a];
                        assert(caps@[j].id != caps@[k as int].id);
                    } else {
                        let j = choose|j: int| 0 <= j < k && #[trigger] caps@[j] == before[b];
                        assert(caps@[j].id != caps@[k as int].id);
                    }
                }
            }
        }
        k = k + 1;
    }
    proof {
        assert(caps@.take(caps@.len() as int) =~= caps@);
    }
    out
}

impl CapabilityManager {
    /// A held capability has one parent.
    proof fn lemma_one_parent(&self, c: u64, p: u64, q: u64)
        requires
            self.wf(),
            derived_in(*self, c, p),
            derived_in(*self, c, q),
        ensures
            p == q,
            p < c,
    {
        reveal(derived_in);
        let (e1, k1) = choose|e: u32, k: int|
            self.has_space(e) && 0 <= k < self.space_caps(e).len() && (#[trigger] self.space_caps(e)[k]).id == c
                && self.space_caps(e)[k].parent == Some(p);
        let (e2, k2) = choose|e: u32, k: int|
            self.has_space(e) && 0 <= k < self.space_caps(e).len() && (#[trigger] self.space_caps(e)[k]).id == c
                && self.space_caps(e)[k].parent == Some(q);
        let i1 = self.space_index(e1);
        let i2 = self.space_index(e2);
        self.lemma_space_at(i1);
        self.lemma_space_at(i2);
        let sp = self.spaces@;
        assert(sp[i1].capabilities@[k1].id == c);
        assert(sp[i2].capabilities@[k2].id == c);
        if i1 != i2 {
            assert(sp[i1].capabilities@[k1].id != sp[i2].capabilities@[k2].id);
        } else if k1 != k2 {
            assert(ids_unique(sp[i1].capabilities@));
            assert(sp[i1].capabilities@[k1].id != sp[i1].capabilities@[k2].id);
        }
        assert(parent_below(sp[i1].capabilities@[k1]));
    }

    /// Raw positions in the spaces are the derivations the views show.
    proof fn lemma_child_at(&self, p: u64, i: int, k: int)
        requires
            self.wf(),
            child_at(self.spaces@, p, i, k),
        ensures
            derived_in(*self, self.spaces@[i].capabilities@[k].id, p),
            self.spaces@[i].capabilities@[k].id < self.next_id,
    {
        reveal(derived_in);
        self.lemma_space_at(i);
        let e = self.spaces@[i].entity_id;
        assert(self.space_caps(e)[k] == self.spaces@[i].capabilities@[k]);
        assert(ids_below(self.spaces@[i].capabilities@, self.next_id));
    }

    proof fn lemma_derived_at(&self, c: u64, p: u64)
        requires
            self.wf(),
            derived_in(*self, c, p),
        ensures
            exists|i: int, k: int| child_at(self.spaces@, p, i, k) && #[trigger] self.spaces@[i].capabilities@[k].id == c,
            c < self.next_id,
    {
        reveal(derived_in);
        let (e, k) = choose|e: u32, k: int|
            self.has_space(e) && 0 <= k < self.space_caps(e).len() && (#[trigger] self.space_caps(e)[k]).id == c
                && self.space_caps(e)[k].parent == Some(p);
        let i = self.space_index(e);
        self.lemma_space_at(i);
        assert(self.spaces@[i].capabilities@[k].id == c);
        assert(child_at(self.spaces@, p, i, k));
        assert(ids_below(self.spaces@[i].capabilities@, self.next_id));
    }

    /// Identifiers of the capabilities derived from `current`, each once.
    fn collect_children(&self, current: u64) -> (out: Vec<u64>)
        requires
            self.wf(),
        ensures
            forall|c: u64| #[trigger] out@.contains(c) <==> derived_in(*self, c, current),
            out@.no_duplicates(),
    {
        let ghost sp = self.spaces@;
        let mut out: Vec<u64> = Vec::new();
        let mut i: usize = 0;
        while i < self.spaces.len()
            invariant
                self.wf(),
                sp == self.spaces@,
                i <= sp.len(),
                out@.no_duplicates(),
                forall|c: u64| #[trigger] out@.contains(c) <==> exists|a: int, b: int|
                    a < i && child_at(sp, current, a, b) && #[trigger] sp[a].capabilities@[b].id == c,
            decreases sp.len() - i,
        {
            let mut k: usize = 0;
            while k < self.spaces[i].capabilities.len()
                invariant
                    self.wf(),
                    sp == self.spaces@,
                    i < sp.len(),
                    k <= sp[i as int].capabilities@.len(),
                    out@.no_duplicates(),
                    forall|c: u64| #[trigger] out@.contains(c) <==> exists|a: int, b: int|
                        (a < i || (a == i && b < k)) && child_at(sp, current, a, b) && #[trigger] sp[a].capabilities@[b].id == c,
                decreases sp[i as int].capabilities@.len() - k,
            {
                let cap = self.spaces[i].capabilities[k];
                let is_child = match cap.parent {
                    Some(p) => p == current,
                    None => false,
                };
                let ghost before = out@;
                if is_child {
                    proof {
                        assert(!before.contains(cap.id)) by {
                            if before.contains(cap.id) {
                                let (a, b) = choose|a: int, b: int|
                                    (a < i || (a == i && b < k)) && child_at(sp, current, a, b) && #[trigger] sp[a].capabilities@[b].id == cap.id;
                                if a != i {
                                    assert(sp[a].capabilities@[b].id != sp[i as int].capabilities@[k as int].id);
                                } else {
                                    assert(ids_unique(sp[i as int].capabilities@));
                                    assert(sp[i as int].capabilities@[b].id != sp[i as int].capabilities@[k as int].id);
                                }
                            }
                        }
                    }
                    out.push(cap.id);
                }
                proof {
                    if is_child {
                        assert(out@ == before.push(cap.id));
                    } else {
                        assert(out@ == before);
                    }
                    assert forall|c: u64| #[trigger] out@.contains(c) <==> exists|a: int, b: int|
                        (a < i || (a == i && b < k + 1)) && child_at(sp, current, a, b) && #[trigger] sp[a].capabilities@[b].id == c by {
                        if out@.contains(c) {
                            let j = choose|j: int| 0 <= j < out@.len() && out@[j] == c;
                            if j < before.len() {
                                assert(before[j] == c);
                                assert(before.contains(c));
                                let (a, b) = choose|a: int, b: int|
                                    (a < i || (a == i && b < k)) && child_at(sp, current, a, b) && #[trigger] sp[a].capabilities@[b].id == c;
                                assert(sp[a].capabilities@[b].id == c);
                            } else {
                                assert(is_child && c == cap.id);
                                assert(child_at(sp, current, i as int, k as int) && sp[i as int].capabilities@[k as int].id == c);
                            }
                        }
                        if exists|a: int, b: int| (a < i || (a == i && b < k + 1)) && child_at(sp, current, a, b)
                            && #[trigger] sp[a].capabilities@[b].id == c {
                            let (a, b) = choose|a: int, b: int|
                                (a < i || (a == i && b < k + 1)) && child_at(sp, current, a, b) && #[trigger] sp[a].capabilities@[b].id == c;
                            if a == i && b == k {
                                assert(is_child);
                                assert(out@[out@.len() - 1] == c);
                            } else {
                                assert(sp[a].capabilities@[b].id == c);
                                assert(before.contains(c));
                                let j = choose|j: int| 0 <= j < before.len() && before[j] == c;
                                assert(out@[j] == c);
                            }
                        }
                    }
                }
                k = k + 1;
            }
            i = i + 1;
        }
        proof {
            assert forall|c: u64| #[trigger] out@.contains(c) <==> derived_in(*self, c, current) by {
                if out@.contains(c) {
                    let (a, b) = choose|a: int, b: int| a < i && child_at(sp, current, a, b) && #[trigger] sp[a].capabilities@[b].id == c;
                    self.lemma_child_at(current, a, b);
                }
                if derived_in(*self, c, current) {
                    self.lemma_derived_at(c, current);
                }
            }
        }
        out
    }
}

/// The identifiers checked when revoking `root` (only the root itself) that
/// `revoker` does not hold.
pub open spec fn unheld_examined(m: CapabilityManager, root: u64, revoker: u32, r: Set<u64>) -> Set<u64> {
    Set::new(|x: u64| x == root && !seq_has_id(m.space_caps(revoker), x))
}

/// `a + k` on a 64-bit counter that wraps.
pub open spec fn wrapping_add_nat(a: u64, k: nat) -> u64 {
    ((a + k) % 0x1_0000_0000_0000_0000) as u64
}

proof fn lemma_wrapping_step(a: u64, k: nat)
    ensures
        wrapping_add_nat(a, k).wrapping_add(1) == wrapping_add_nat(a, k + 1),
        wrapping_add_nat(a, 0) == a,
{
    let m: int = 0x1_0000_0000_0000_0000;
    let w = (a + k) % m;
    vstd::arithmetic::div_mod::lemma_add_mod_noop(a + k, 1, m);
    assert(0 <= w < m) by {
        vstd::arithmetic::div_mod::lemma_mod_bound(a + k, m);
    }
    assert((w + 1) % m == (a + k + 1) % m);
    if w + 1 == m {
        assert((w + 1) % m == 0) by {
            vstd::arithmetic::div_mod::lemma_mod_self_0(m);
        }
    } else {
        assert((w + 1) % m == w + 1) by {
            vstd::arithmetic::div_mod::lemma_small_mod((w + 1) as nat, m as nat);
        }
    }
    assert((a as int) % m == a) by {
        vstd::arithmetic::div_mod::lemma_small_mod(a as nat, m as nat);
    }
}

/// Distinct identifiers below `b` number at most `b`.
proof fn lemma_distinct_below(s: Seq<u64>, b: int)
    requires
        0 <= b <= 0x1_0000_0000_0000_0000,
        s.no_duplicates(),
        forall|i: int| 0 <= i < s.len() ==> s[i] < b,
    ensures
        s.len() <= b,
    decreases b,
{
    if s.len() > 0 {
        assert(s[0] < b);
    }
    if b > 0 {
        let top = (b - 1) as u64;
        if s.contains(top) {
            let j = choose|j: int| 0 <= j < s.len() && s[j] == top;
            let t = s.remove(j);
            assert(t.len() == s.len() - 1);
            assert forall|i: int| 0 <= i < t.len() implies t[i] == (if i < j { s[i] } else { s[i + 1] }) by {}
            assert forall|i: int| 0 <= i < t.len() implies t[i] < b - 1 by {
                let i2 = if i < j { i } else { i + 1 };
                assert(t[i] == s[i2]);
                assert(s[i2] != s[j]);
            }
            assert forall|x: int, y: int| 0 <= x < t.len() && 0 <= y < t.len() && x != y implies t[x] != t[y] by {
                let x2 = if x < j { x } else { x + 1 };
                let y2 = if y < j { y } else { y + 1 };
                assert(t[x] == s[x2] && t[y] == s[y2]);
            }
            lemma_distinct_below(t, b - 1);
        } else {
            assert forall|i: int| 0 <= i < s.len() implies s[i] < b - 1 by {
                assert(s[i] != top);
            }
            lemma_distinct_below(s, b - 1);
        }
    }
}

/// Managers whose spaces hold the same capabilities agree on derivations
/// and on who may revoke what.
proof fn lemma_same_views(a: CapabilityManager, b: CapabilityManager)
    requires
        forall|e: u32|
            #![trigger b.space_caps(e)]
            #![trigger b.has_space(e)]
            b.has_space(e) == a.has_space(e) && b.space_caps(e) == a.space_caps(e),
    ensures
        forall|c: u64, p: u64| #[trigger] derived_in(a, c, p) == derived_in(b, c, p),
        forall|r: u32, x: u64| #[trigger] may_revoke(a, r, x) == may_revoke(b, r, x),
{
    reveal(derived_in);
    reveal(may_revoke);
    assert forall|c: u64, p: u64| #[trigger] derived_in(a, c, p) == derived_in(b, c, p) by {
        if derived_in(a, c, p) {
            let (e, k) = choose|e: u32, k: int|
                a.has_space(e) && 0 <= k < a.space_caps(e).len() && (#[trigger] a.space_caps(e)[k]).id == c
                    && a.space_caps(e)[k].parent == Some(p);
            assert(b.space_caps(e) == a.space_caps(e));
            assert(b.space_caps(e)[k].id == c);
        }
        if derived_in(b, c, p) {
            let (e, k) = choose|e: u32, k: int|
                b.has_space(e) && 0 <= k < b.space_caps(e).len() && (#[trigger] b.space_caps(e)[k]).id == c
                    && b.space_caps(e)[k].parent == Some(p);
            assert(a.space_caps(e)[k].id == c);
        }
    }
    assert forall|r: u32, x: u64| #[trigger] may_revoke(a, r, x) == may_revoke(b, r, x) by {
        assert(b.space_caps(r) == a.space_caps(r));
    }
}

/// What revoking `root` as `revoker` leaves in `after`, starting from
/// `before`, when it takes the identifiers of `r` and answers `n`.
pub open spec fn revoke_outcome(
    before: CapabilityManager,
    after: CapabilityManager,
    root: u64,
    revoker: u32,
    r: Set<u64>,
    n: usize,
) -> bool {
    &&& n == r.len()
    &&& after.registry_view() == without_ids(before.registry_view(), r)
    &&& forall|e: u32|
        #![trigger after.has_space(e)]
        #![trigger after.space_caps(e)]
        after.has_space(e) == before.has_space(e) && after.space_caps(e) == without_ids(before.space_caps(e), r)
    &&& forall|e: u32|
        #![trigger after.space_stats(e)]
        before.has_space(e) ==> after.space_stats(e) == (CapabilityStats {
            revoked: before.space_stats(e).revoked.wrapping_add(
                (before.space_caps(e).len() - after.space_caps(e).len()) as u64,
            ),
            access_denied: if e == revoker {
                wrapping_add_nat(before.space_stats(e).access_denied, unheld_examined(before, root, revoker, r).len())
            } else {
                before.space_stats(e).access_denied
            },
            ..before.space_stats(e)
        })
    &&& after.stats_view() == (CapabilityStats {
        revoked: before.stats_view().revoked.wrapping_add(n as u64),
        access_denied: if before.has_space(revoker) {
            before.stats_view().access_denied
        } else {
            before.stats_view().access_denied.wrapping_add(1)
        },
        ..before.stats_view()
    })
}

proof fn lemma_without_listed(caps: Seq<Capability>, ids: Seq<u64>)
    ensures
        without_listed(caps, ids) == without_ids(caps, ids.to_set()),
{
    let p1 = |c: Capability| !ids.contains(c.id);
    let p2 = |c: Capability| !ids.to_set().contains(c.id);
    assert(p1 =~= p2);
}

impl CapabilityManager {
    /// A new registry without repeats and with identifiers below the next
    /// one keeps the manager consistent.
    proof fn lemma_wf_new_registry(a: &Self, b: &Self)
        requires
            a.wf(),
            b.next_id == a.next_id,
            b.spaces == a.spaces,
            ids_unique(b.registry@),
            ids_below(b.registry@, b.next_id),
        ensures
            b.wf(),
    {
    }

    /// Drops from space `i` every capability listed in `ids`, counting each
    /// one dropped as revoked in that space.
    fn strip_space(&mut self, i: usize, ids: &Vec<u64>)
        requires
            old(self).wf(),
            i < old(self).spaces@.len(),
        ensures
            final(self).wf(),
            final(self).next_id == old(self).next_id,
            final(self).registry == old(self).registry,
            final(self).global_stats == old(self).global_stats,
            final(self).spaces@.len() == old(self).spaces@.len(),
            forall|j: int|
                0 <= j < final(self).spaces@.len() ==> (#[trigger] final(self).spaces@[j]).entity_id
                    == old(self).spaces@[j].entity_id,
            forall|j: int|
                0 <= j < final(self).spaces@.len() && j != i ==> (#[trigger] final(self).spaces@[j]).capabilities@
                    == old(self).spaces@[j].capabilities@ && final(self).spaces@[j].stats == old(self).spaces@[j].stats,
            final(self).spaces@[i as int].capabilities@ == without_listed(old(self).spaces@[i as int].capabilities@, ids@),
            final(self).spaces@[i as int].stats == (CapabilityStats {
                revoked: old(self).spaces@[i as int].stats.revoked.wrapping_add(
                    (old(self).spaces@[i as int].capabilities@.len() - final(self).spaces@[i as int].capabilities@.len()) as u64,
                ),
                ..old(self).spaces@[i as int].stats
            }),
    {
        let ghost pre = *old(self);
        let before = self.spaces[i].capabilities.len();
        let kept = filter_caps(&self.spaces[i].capabilities, ids);
        let after = kept.len();
        self.spaces[i].capabilities = kept;
        self.spaces[i].stats.revoked = self.spaces[i].stats.revoked.wrapping_add((before - after) as u64);
        proof {
            let sp = self.spaces@;
            let old_caps = pre.spaces@[i as int].capabilities@;
            assert forall|j: int| 0 <= j < sp.len() && j != i implies #[trigger] sp[j] == pre.spaces@[j] by {}
            assert forall|x: int| #![trigger sp[i as int].capabilities@[x]] 0 <= x < sp[i as int].capabilities@.len() implies exists|y: int|
                0 <= y < old_caps.len() && #[trigger] old_caps[y] == sp[i as int].capabilities@[x] by {
                assert(sp[i as int].capabilities@[x] == kept@[x]);
            }
            assert forall|j: int| 0 <= j < sp.len() implies ids_unique(#[trigger] sp[j].capabilities@)
                && ids_below(sp[j].capabilities@, self.next_id) by {
                if j == i {
                    assert forall|x: int| 0 <= x < sp[j].capabilities@.len() implies #[trigger] sp[j].capabilities@[x].id
                        < self.next_id by {
                        let y = choose|y: int| 0 <= y < old_caps.len() && #[trigger] old_caps[y] == sp[i as int].capabilities@[x];
                        assert(ids_below(old_caps, pre.next_id));
                        assert(old_caps[y].id < pre.next_id);
                    }
                }
            }
            assert forall|a: int, b: int, x: int, y: int|
                0 <= a < sp.len() && 0 <= b < sp.len() && a != b && 0 <= x < sp[a].capabilities@.len() && 0 <= y
                    < sp[b].capabilities@.len() implies #[trigger] sp[a].capabilities@[x].id != #[trigger] sp[b].capabilities@[y].id by {
                let x2 = if a == i {
                    choose|z: int| 0 <= z < old_caps.len() && #[trigger] old_caps[z] == sp[i as int].capabilities@[x]
                } else {
                    x
                };
                let y2 = if b == i {
                    choose|z: int| 0 <= z < old_caps.len() && #[trigger] old_caps[z] == sp[i as int].capabilities@[y]
                } else {
                    y
                };
                assert(sp[a].capabilities@[x] == pre.spaces@[a].capabilities@[x2]);
                assert(sp[b].capabilities@[y] == pre.spaces@[b].capabilities@[y2]);
                assert(pre.spaces@[a].capabilities@[x2].id != pre.spaces@[b].capabilities@[y2].id);
            }
            assert forall|a: int, x: int| 0 <= a < sp.len() && 0 <= x < sp[a].capabilities@.len() implies parent_below(
                #[trigger] sp[a].capabilities@[x],
            ) by {
                let x2 = if a == i {
                    choose|z: int| 0 <= z < old_caps.len() && #[trigger] old_caps[z] == sp[i as int].capabilities@[x]
                } else {
                    x
                };
                assert(sp[a].capabilities@[x] == pre.spaces@[a].capabilities@[x2]);
                assert(parent_below(pre.spaces@[a].capabilities@[x2]));
            }
            assert forall|a: int, b: int|
                0 <= a < sp.len() && 0 <= b < sp.len() && a != b implies #[trigger] sp[a].entity_id != #[trigger] sp[b].entity_id by {
                assert(pre.spaces@[a].entity_id != pre.spaces@[b].entity_id);
            }
        }
    }
}

/// Bookkeeping of the revocation walk from `root`: identifiers waiting in
/// `ws`, taken in `rv`, refused in `d`, and in `u` those of `d` that the
/// revoker does not hold.
#[verifier::opaque]
spec fn walk_inv(
    m: CapabilityManager,
    root: u64,
    revoker: u32,
    bound: int,
    ws: Seq<u64>,
    rv: Seq<u64>,
    d: Seq<u64>,
    u: Seq<u64>,
) -> bool {
    &&& ws.no_duplicates()
    &&& rv.no_duplicates()
    &&& d.no_duplicates()
    &&& u.no_duplicates()
    &&& forall|x: u64| #[trigger] ws.contains(x) ==> !rv.contains(x) && !d.contains(x)
    &&& forall|x: u64| #[trigger] rv.contains(x) ==> !d.contains(x)
    &&& forall|x: u64| #[trigger] u.contains(x) <==> d.contains(x) && !seq_has_id(m.space_caps(revoker), x)
    &&& forall|x: u64| #[trigger] rv.contains(x) ==> may_take(m, root, revoker, x)
    &&& forall|x: u64| #[trigger] d.contains(x) ==> !may_take(m, root, revoker, x)
    &&& forall|x: u64|
        #![trigger ws.contains(x)]
        #![trigger rv.contains(x)]
        #![trigger d.contains(x)]
        ws.contains(x) || rv.contains(x) || d.contains(x) ==> root <= x < bound && (x == root || exists|q: u64|
            rv.contains(q) && #[trigger] derived_in(m, x, q))
    &&& ws.contains(root) || rv.contains(root) || d.contains(root)
    &&& forall|q: u64, c: u64|
        rv.contains(q) && #[trigger] derived_in(m, c, q) ==> ws.contains(c) || rv.contains(c) || d.contains(c)
}

/// Appending a new identifier keeps a list free of repeats.
proof fn lemma_push_fresh(s: Seq<u64>, v: u64)
    requires
        s.no_duplicates(),
        !s.contains(v),
    ensures
        s.push(v).no_duplicates(),
        forall|x: u64| #[trigger] s.push(v).contains(x) <==> s.contains(x) || x == v,
{
    broadcast use vstd::seq_lib::lemma_seq_contains_after_push;

    let t = s.push(v);
    assert forall|i: int, j: int| 0 <= i < t.len() && 0 <= j < t.len() && i != j implies t[i] != t[j] by {
        if i == s.len() {
            assert(t[j] == s[j]);
            assert(s.contains(s[j]));
        } else if j == s.len() {
            assert(t[i] == s[i]);
            assert(s.contains(s[i]));
        } else {
            assert(t[i] == s[i] && t[j] == s[j]);
        }
    }
}

/// Taking the last identifier off a list without repeats.
proof fn lemma_pop_last(s: Seq<u64>, v: u64)
    requires
        s.push(v).no_duplicates(),
    ensures
        s.no_duplicates(),
        !s.contains(v),
        forall|x: u64| #[trigger] s.push(v).contains(x) <==> s.contains(x) || x == v,
{
    broadcast use vstd::seq_lib::lemma_seq_contains_after_push;

    let t = s.push(v);
    assert forall|i: int, j: int| 0 <= i < s.len() && 0 <= j < s.len() && i != j implies s[i] != s[j] by {
        assert(t[i] == s[i] && t[j] == s[j]);
    }
    if s.contains(v) {
        let k = choose|k: int| 0 <= k < s.len() && s[k] == v;
        assert(t[k] == t[s.len() as int]);
    }
}

/// Two lists without repeats and without common identifiers join into one.
proof fn lemma_concat_fresh(a: Seq<u64>, b: Seq<u64>)
    requires
        a.no_duplicates(),
        b.no_duplicates(),
        forall|x: u64| #[trigger] a.contains(x) ==> !b.contains(x),
    ensures
        (a + b).no_duplicates(),
        forall|x: u64| #[trigger] (a + b).contains(x) <==> a.contains(x) || b.contains(x),
{
    broadcast use vstd::seq_lib::lemma_seq_concat_contains_all_elements;

    let t = a + b;
    assert forall|i: int, j: int| 0 <= i < t.len() && 0 <= j < t.len() && i != j implies t[i] != t[j] by {
        if i < a.len() && j < a.len() {
            assert(t[i] == a[i] && t[j] == a[j]);
        } else if i >= a.len() && j >= a.len() {
            assert(t[i] == b[i - a.len()] && t[j] == b[j - a.len()]);
        } else if i < a.len() {
            assert(t[i] == a[i] && a.contains(a[i]));
            assert(t[j] == b[j - a.len()] && b.contains(b[j - a.len()]));
        } else {
            assert(t[j] == a[j] && a.contains(a[j]));
            assert(t[i] == b[i - a.len()] && b.contains(b[i - a.len()]));
        }
    }
}

proof fn lemma_walk_start(m: CapabilityManager, root: u64, revoker: u32, bound: int)
    requires
        root < bound,
    ensures
        walk_inv(m, root, revoker, bound, seq![root], Seq::empty(), Seq::empty(), Seq::empty()),
{
    reveal(walk_inv);
    let ws = seq![root];
    assert(ws[0] == root);
    assert forall|x: u64| #[trigger] ws.contains(x) implies x == root by {}
}

proof fn lemma_walk_bound(
    m: CapabilityManager,
    root: u64,
    revoker: u32,
    bound: int,
    ws: Seq<u64>,
    rv: Seq<u64>,
    d: Seq<u64>,
    u: Seq<u64>,
)
    requires
        walk_inv(m, root, revoker, bound, ws, rv, d, u),
        0 <= bound <= 0x1_0000_0000_0000_0000,
    ensures
        rv.len() + d.len() <= bound,
{
    reveal(walk_inv);
    lemma_concat_fresh(rv, d);
    let all = rv + d;
    assert forall|i: int| 0 <= i < all.len() implies all[i] < bound by {
        assert(all.contains(all[i]));
    }
    lemma_distinct_below(all, bound);
}

#[verifier::rlimit(40)]
proof fn lemma_walk_deny(
    m: CapabilityManager,
    root: u64,
    revoker: u32,
    bound: int,
    ws: Seq<u64>,
    cur: u64,
    rv: Seq<u64>,
    d: Seq<u64>,
    u: Seq<u64>,
)
    requires
        walk_inv(m, root, revoker, bound, ws.push(cur), rv, d, u),
        !may_take(m, root, revoker, cur),
    ensures
        walk_inv(
            m,
            root,
            revoker,
            bound,
            ws,
            rv,
            d.push(cur),
            if seq_has_id(m.space_caps(revoker), cur) {
                u
            } else {
                u.push(cur)
            },
        ),
{
    reveal(walk_inv);
    let ws0 = ws.push(cur);
    lemma_pop_last(ws, cur);
    assert(ws0.contains(cur));
    lemma_push_fresh(d, cur);
    let d2 = d.push(cur);
    if !seq_has_id(m.space_caps(revoker), cur) {
        lemma_push_fresh(u, cur);
    }
    let u2 = if seq_has_id(m.space_caps(revoker), cur) {
        u
    } else {
        u.push(cur)
    };
    assert forall|x: u64| #[trigger] ws.contains(x) implies !rv.contains(x) && !d2.contains(x) by {
        assert(ws0.contains(x));
    }
    assert forall|x: u64|
        #![trigger ws.contains(x)]
        #![trigger rv.contains(x)]
        #![trigger d2.contains(x)]
        ws.contains(x) || rv.contains(x) || d2.contains(x) implies root <= x < bound && (x == root || exists|q: u64|
            rv.contains(q) && #[trigger] derived_in(m, x, q)) by {
        assert(ws0.contains(x) || rv.contains(x) || d.contains(x));
    }
    assert forall|q: u64, c: u64| rv.contains(q) && #[trigger] derived_in(m, c, q) implies ws.contains(c) || rv.contains(c)
        || d2.contains(c) by {
        assert(ws0.contains(c) || rv.contains(c) || d.contains(c));
    }
    assert(ws0.contains(root) || rv.contains(root) || d.contains(root));
    assert forall|x: u64| #[trigger] u2.contains(x) <==> d2.contains(x) && !seq_has_id(m.space_caps(revoker), x) by {}
}

proof fn lemma_walk_take(
    m: CapabilityManager,
    root: u64,
    revoker: u32,
    bound: int,
    ws: Seq<u64>,
    cur: u64,
    kids: Seq<u64>,
    rv: Seq<u64>,
    d: Seq<u64>,
    u: Seq<u64>,
)
    requires
        m.wf(),
        bound >= m.next_id_spec(),
        walk_inv(m, root, revoker, bound, ws.push(cur), rv, d, u),
        may_take(m, root, revoker, cur),
        kids.no_duplicates(),
        forall|c: u64| #[trigger] kids.contains(c) <==> derived_in(m, c, cur),
    ensures
        walk_inv(m, root, revoker, bound, ws + kids, rv.push(cur), d, u),
{
    reveal(walk_inv);
    let ws0 = ws.push(cur);
    lemma_pop_last(ws, cur);
    assert(ws0.contains(cur));
    assert(cur >= root && cur < bound);
    assert forall|c: u64| #[trigger] kids.contains(c) implies cur < c && c < bound && !ws0.contains(c) && !rv.contains(c)
        && !d.contains(c) by {
        m.lemma_one_parent(c, cur, cur);
        m.lemma_derived_at(c, cur);
        if ws0.contains(c) || rv.contains(c) || d.contains(c) {
            if c != root {
                let q = choose|q: u64| rv.contains(q) && #[trigger] derived_in(m, c, q);
                m.lemma_one_parent(c, q, cur);
            }
        }
    }
    assert forall|x: u64| #[trigger] ws.contains(x) implies !kids.contains(x) by {
        assert(ws0.contains(x));
    }
    lemma_concat_fresh(ws, kids);
    lemma_push_fresh(rv, cur);
    let ws2 = ws + kids;
    let rv2 = rv.push(cur);
    assert forall|x: u64| #[trigger] ws2.contains(x) implies !rv2.contains(x) && !d.contains(x) by {
        if ws.contains(x) {
            assert(ws0.contains(x));
        }
    }
    assert forall|x: u64| #[trigger] rv2.contains(x) implies !d.contains(x) by {
        if x == cur {
            assert(ws0.contains(x));
        }
    }
    assert forall|x: u64|
        #![trigger ws2.contains(x)]
        #![trigger rv2.contains(x)]
        #![trigger d.contains(x)]
        ws2.contains(x) || rv2.contains(x) || d.contains(x) implies root <= x < bound && (x == root || exists|q: u64|
            rv2.contains(q) && #[trigger] derived_in(m, x, q)) by {
        if kids.contains(x) {
            assert(rv2.contains(cur));
        } else {
            assert(ws0.contains(x) || rv.contains(x) || d.contains(x));
            if x != root {
                let q = choose|q: u64| rv.contains(q) && #[trigger] derived_in(m, x, q);
                assert(rv2.contains(q));
            }
        }
    }
    assert forall|q: u64, c: u64| rv2.contains(q) && #[trigger] derived_in(m, c, q) implies ws2.contains(c) || rv2.contains(c)
        || d.contains(c) by {
        if q == cur {
            assert(kids.contains(c));
        } else {
            assert(ws0.contains(c) || rv.contains(c) || d.contains(c));
        }
    }
    assert(ws0.contains(root) || rv.contains(root) || d.contains(root));
}

proof fn lemma_walk_done(m: CapabilityManager, root: u64, revoker: u32, bound: int, rv: Seq<u64>, d: Seq<u64>, u: Seq<u64>)
    requires
        walk_inv(m, root, revoker, bound, Seq::empty(), rv, d, u),
    ensures
        revocation_set(m, root, revoker, rv.to_set()),
        u.to_set() == unheld_examined(m, root, revoker, rv.to_set()),
        rv.len() == rv.to_set().len(),
        u.len() == u.to_set().len(),
{
    reveal(walk_inv);
    let r = rv.to_set();
    rv.unique_seq_to_set();
    u.unique_seq_to_set();
    let e: Seq<u64> = Seq::empty();
    assert forall|x: u64| !e.contains(x) by {}
    assert forall|x: u64| #[trigger] r.contains(x) implies may_take(m, root, revoker, x) && (x == root || exists|q: u64|
        r.contains(q) && #[trigger] derived_in(m, x, q)) by {
        assert(rv.contains(x));
        if x != root {
            let q = choose|q: u64| rv.contains(q) && #[trigger] derived_in(m, x, q);
            assert(r.contains(q));
        }
    }
    assert forall|q: u64, c: u64| r.contains(q) && #[trigger] derived_in(m, c, q) && may_take(m, root, revoker, c) implies r.contains(
        c,
    ) by {
        assert(rv.contains(q));
    }
    assert forall|x: u64| #[trigger] unheld_examined(m, root, revoker, r).contains(x) <==> u.to_set().contains(x) by {
        if u.contains(x) {
            assert(d.contains(x));
        }
        if unheld_examined(m, root, revoker, r).contains(x) {
            reveal(may_revoke);
            if may_revoke(m, revoker, x) {
                let s = m.space_caps(revoker);
                let i = choose|i: int| 0 <= i < s.len() && #[trigger] s[i].id == x && s[i].rights.0 & CapabilityRights::REVOKE
                    == CapabilityRights::REVOKE;
                assert(s[i].id == x);
            }
            assert(!rv.contains(x));
            assert(d.contains(x));
        }
    }
    assert(unheld_examined(m, root, revoker, r) =~= u.to_set());
}

impl CapabilityManager {
    /// The identifiers a revocation of `cap_id` by `revoker` takes, each once,
    /// with the checked identifiers that `revoker` does not hold.  The root is
    /// checked as `check_capability` checks it; its derivatives go with it.
    fn collect_revocable(&mut self, cap_id: CapabilityId, revoker: u32) -> (out: (Vec<u64>, Ghost<Seq<u64>>))
        requires
            old(self).wf(),
        ensures
            final(self).wf(),
            final(self).next_id == old(self).next_id,
            final(self).registry@ == old(self).registry@,
            forall|e: u32|
                #![trigger final(self).space_caps(e)]
                #![trigger final(self).has_space(e)]
                final(self).has_space(e) == old(self).has_space(e)
                    && final(self).space_caps(e) == old(self).space_caps(e),
            revocation_set(*old(self), cap_id, revoker, out.0@.to_set()),
            out.0@.len() == out.0@.to_set().len(),
            out.1@.to_set() == unheld_examined(*old(self), cap_id, revoker, out.0@.to_set()),
            out.1@.len() == out.1@.to_set().len(),
            final(self).stats_view() == (if old(self).has_space(revoker) {
                old(self).stats_view()
            } else {
                CapabilityStats {
                    access_denied: old(self).stats_view().access_denied.wrapping_add(1),
                    ..old(self).stats_view()
                }
            }),
            forall|e: u32|
                #![trigger final(self).space_stats(e)]
                old(self).has_space(e) ==> final(self).space_stats(e) == (if e == revoker {
                    CapabilityStats {
                        access_denied: wrapping_add_nat(old(self).space_stats(e).access_denied, out.1@.len()),
                        ..old(self).space_stats(e)
                    }
                } else {
                    old(self).space_stats(e)
                }),
    {
        let ghost m0 = *self;
        let ghost bound: int = if m0.next_id > cap_id {
            m0.next_id as int
        } else {
            cap_id + 1
        };
        let required = CapabilityRights::new(CapabilityRights::REVOKE);
        let mut to_revoke: Vec<u64> = Vec::new();
        to_revoke.push(cap_id);
        let mut revoked_ids: Vec<u64> = Vec::new();
        let ghost mut denied: Seq<u64> = Seq::empty();
        let ghost mut unheld: Seq<u64> = Seq::empty();
        proof {
            assert(to_revoke@ == seq![cap_id]);
            lemma_walk_start(m0, cap_id, revoker, bound);
            assert forall|e: u32| #![trigger self.space_stats(e)] m0.has_space(e) implies self.space_stats(e) == (if e
                == revoker {
                CapabilityStats {
                    access_denied: wrapping_add_nat(m0.space_stats(e).access_denied, unheld.len()),
                    ..m0.space_stats(e)
                }
            } else {
                m0.space_stats(e)
            }) by {
                lemma_wrapping_step(m0.space_stats(e).access_denied, 0);
            }
        }
        while to_revoke.len() > 0
            invariant
                m0.wf(),
                self.wf(),
                self.next_id == m0.next_id,
                self.registry@ == m0.registry@,
                forall|e: u32|
                    #![trigger self.space_caps(e)]
                    #![trigger self.has_space(e)]
                    self.has_space(e) == m0.has_space(e) && self.space_caps(e) == m0.space_caps(e),
                required.0 == CapabilityRights::REVOKE,
                bound == (if m0.next_id > cap_id {
                    m0.next_id as int
                } else {
                    cap_id + 1
                }),
                walk_inv(m0, cap_id, revoker, bound, to_revoke@, revoked_ids@, denied, unheld),
                m0.has_space(revoker) ==> self.global_stats == m0.global_stats,
                !m0.has_space(revoker) ==> revoked_ids@.len() == 0 && denied.len() + to_revoke@.len() == 1
                    && self.global_stats == (if denied.len() == 0 {
                    m0.global_stats
                } else {
                    CapabilityStats {
                        access_denied: m0.global_stats.access_denied.wrapping_add(1),
                        ..m0.global_stats
                    }
                }),
                forall|e: u32|
                    #![trigger self.space_stats(e)]
                    m0.has_space(e) ==> self.space_stats(e) == (if e == revoker {
                        CapabilityStats {
                            access_denied: wrapping_add_nat(m0.space_stats(e).access_denied, unheld.len()),
                            ..m0.space_stats(e)
                        }
                    } else {
                        m0.space_stats(e)
                    }),
            decreases bound - (revoked_ids@.len() + denied.len()),
        {
            let ghost ws0 = to_revoke@;
            let current = match to_revoke.pop() {
                Some(c) => c,
                None => cap_id,
            };
            let ghost ws1 = to_revoke@;
            let ghost pre = *self;
            proof {
                assert(ws0 == ws1.push(current));
                lemma_walk_bound(m0, cap_id, revoker, bound, ws0, revoked_ids@, denied, unheld);
            }
            let allowed = if current == cap_id {
                self.check_capability(revoker, current, required)
            } else {
                true
            };
            proof {
                lemma_same_views(m0, pre);
                lemma_same_views(m0, *self);
                reveal(may_revoke);
                assert(allowed == may_take(m0, cap_id, revoker, current));
            }
            if !allowed {
                proof {
                    let u0 = unheld;
                    lemma_walk_deny(m0, cap_id, revoker, bound, ws1, current, revoked_ids@, denied, unheld);
                    denied = denied.push(current);
                    if !seq_has_id(m0.space_caps(revoker), current) {
                        unheld = unheld.push(current);
                    }
                    assert forall|e: u32| #![trigger self.space_stats(e)] m0.has_space(e) implies self.space_stats(e) == (if e
                        == revoker {
                        CapabilityStats {
                            access_denied: wrapping_add_nat(m0.space_stats(e).access_denied, unheld.len()),
                            ..m0.space_stats(e)
                        }
                    } else {
                        m0.space_stats(e)
                    }) by {
                        assert(pre.space_stats(e) == (if e == revoker {
                            CapabilityStats {
                                access_denied: wrapping_add_nat(m0.space_stats(e).access_denied, u0.len()),
                                ..m0.space_stats(e)
                            }
                        } else {
                            m0.space_stats(e)
                        }));
                        lemma_wrapping_step(m0.space_stats(e).access_denied, u0.len());
                    }
                    lemma_walk_bound(m0, cap_id, revoker, bound, to_revoke@, revoked_ids@, denied, unheld);
                }
            } else {
                proof {
                    if !m0.has_space(revoker) {
                        reveal(walk_inv);
                        assert(ws0.len() == 1 && denied.len() == 0 && revoked_ids@.len() == 0);
                        assert(ws0[0] == current);
                        assert(ws0.contains(cap_id));
                        assert(current == cap_id);
                        reveal(may_revoke);
                        assert(false);
                    }
                }
                let ghost rv0 = revoked_ids@;
                revoked_ids.push(current);
                let mut children = self.collect_children(current);
                let ghost kids = children@;
                to_revoke.append(&mut children);
                proof {
                    lemma_walk_take(m0, cap_id, revoker, bound, ws1, current, kids, rv0, denied, unheld);
                    assert(to_revoke@ == ws1 + kids);
                    lemma_walk_bound(m0, cap_id, revoker, bound, to_revoke@, revoked_ids@, denied, unheld);
                }
            }
        }
        proof {
            assert(to_revoke@ == Seq::<u64>::empty());
            lemma_walk_done(m0, cap_id, revoker, bound, revoked_ids@, denied, unheld);
        }
        (revoked_ids, Ghost(unheld))
    }

    /// Revokes `cap_id` and all its derivatives, when `revoker` holds it with
    /// the REVOKE right; answers how many were revoked. The right is checked
    /// against `revoker`'s space as `check_capability` does, so a missing
    /// space or capability counts as a denied access.
    pub fn revoke_capability(&mut self, cap_id: CapabilityId, revoker: u32) -> (res: Result<usize, &'static str>)
        requires
            old(self).wf(),
        ensures
            final(self).wf(),
            final(self).next_id_spec() == old(self).next_id_spec(),
            match res {
                Ok(n) => exists|r: Set<u64>|
                    #[trigger] revocation_set(*old(self), cap_id, revoker, r) && revoke_outcome(
                        *old(self),
                        *final(self),
                        cap_id,
                        revoker,
                        r,
                        n,
                    ),
                Err(_) => false,
            },
    {
        let ghost m0 = *self;
        let (revoked_ids, Ghost(unheld)) = self.collect_revocable(cap_id, revoker);
        let ghost r = revoked_ids@.to_set();
        let n = revoked_ids.len();
        let ghost m1 = *self;
        let kept = filter_caps(&self.registry, &revoked_ids);
        let ghost kv = kept@;
        self.registry = kept;
        proof {
            assert forall|k: int| 0 <= k < kv.len() implies #[trigger] kv[k].id < m1.next_id by {
                let j = choose|j: int| 0 <= j < m1.registry@.len() && #[trigger] m1.registry@[j] == kv[k];
                assert(ids_below(m1.registry@, m1.next_id));
            }
            Self::lemma_wf_new_registry(&m1, self);
        }
        let mut i: usize = 0;
        while i < self.spaces.len()
            invariant
                m1.wf(),
                self.wf(),
                self.next_id == m1.next_id,
                self.registry@ == without_listed(m1.registry@, revoked_ids@),
                self.global_stats == m1.global_stats,
                self.spaces@.len() == m1.spaces@.len(),
                i <= self.spaces@.len(),
                forall|j: int|
                    0 <= j < self.spaces@.len() ==> (#[trigger] self.spaces@[j]).entity_id == m1.spaces@[j].entity_id
                        && self.spaces@[j].capabilities@ == (if j < i {
                        without_listed(m1.spaces@[j].capabilities@, revoked_ids@)
                    } else {
                        m1.spaces@[j].capabilities@
                    }) && self.spaces@[j].stats == (if j < i {
                        CapabilityStats {
                            revoked: m1.spaces@[j].stats.revoked.wrapping_add(
                                (m1.spaces@[j].capabilities@.len() - self.spaces@[j].capabilities@.len()) as u64,
                            ),
                            ..m1.spaces@[j].stats
                        }
                    } else {
                        m1.spaces@[j].stats
                    }),
            decreases self.spaces@.len() - i,
        {
            self.strip_space(i, &revoked_ids);
            i = i + 1;
        }
        self.global_stats.revoked = self.global_stats.revoked.wrapping_add(n as u64);
        proof {
            self.lemma_revoke_views(&m0, &m1, revoked_ids@, unheld, cap_id, revoker, n);
        }
        Ok(n)
    }

    proof fn lemma_revoke_views(&self, m0: &Self, m1: &Self, ids: Seq<u64>, unheld: Seq<u64>, cap_id: u64, revoker: u32, n: usize)
        requires
            m0.wf(),
            m1.wf(),
            self.wf(),
            n == ids.len(),
            revocation_set(*m0, cap_id, revoker, ids.to_set()),
            ids.len() == ids.to_set().len(),
            unheld.to_set() == unheld_examined(*m0, cap_id, revoker, ids.to_set()),
            unheld.len() == unheld.to_set().len(),
            m1.registry@ == m0.registry@,
            forall|e: u32|
                #![trigger m1.space_caps(e)]
                #![trigger m1.has_space(e)]
                m1.has_space(e) == m0.has_space(e) && m1.space_caps(e) == m0.space_caps(e),
            m1.stats_view() == (if m0.has_space(revoker) {
                m0.stats_view()
            } else {
                CapabilityStats { access_denied: m0.stats_view().access_denied.wrapping_add(1), ..m0.stats_view() }
            }),
            forall|e: u32|
                #![trigger m1.space_stats(e)]
                m0.has_space(e) ==> m1.space_stats(e) == (if e == revoker {
                    CapabilityStats {
                        access_denied: wrapping_add_nat(m0.space_stats(e).access_denied, unheld.len()),
                        ..m0.space_stats(e)
                    }
                } else {
                    m0.space_stats(e)
                }),
            self.registry@ == without_listed(m1.registry@, ids),
            self.global_stats == (CapabilityStats { revoked: m1.global_stats.revoked.wrapping_add(n as u64), ..m1.global_stats }),
            self.spaces@.len() == m1.spaces@.len(),
            forall|j: int|
                0 <= j < self.spaces@.len() ==> (#[trigger] self.spaces@[j]).entity_id == m1.spaces@[j].entity_id
                    && self.spaces@[j].capabilities@ == without_listed(m1.spaces@[j].capabilities@, ids)
                    && self.spaces@[j].stats == (CapabilityStats {
                    revoked: m1.spaces@[j].stats.revoked.wrapping_add(
                        (m1.spaces@[j].capabilities@.len() - self.spaces@[j].capabilities@.len()) as u64,
                    ),
                    ..m1.spaces@[j].stats
                }),
        ensures
            revocation_set(*m0, cap_id, revoker, ids.to_set()) && revoke_outcome(*m0, *self, cap_id, revoker, ids.to_set(), n),
    {
        let r = ids.to_set();
        lemma_without_listed(m1.registry@, ids);
        assert forall|e: u32| #![trigger self.has_space(e)] #![trigger self.space_caps(e)] self.has_space(e) == m0.has_space(e)
            && self.space_caps(e) == without_ids(m0.space_caps(e), r) by {
            if m1.has_space(e) {
                let k = m1.space_index(e);
                m1.lemma_space_at(k);
                assert(self.spaces@[k].entity_id == e);
                self.lemma_space_at(k);
                lemma_without_listed(m1.spaces@[k].capabilities@, ids);
            } else if self.has_space(e) {
                let k = self.space_index(e);
                self.lemma_space_at(k);
                assert(m1.spaces@[k].entity_id == e);
                m1.lemma_space_at(k);
            } else {
                reveal(Seq::filter);
                assert(without_ids(Seq::<Capability>::empty(), r) =~= Seq::<Capability>::empty());
            }
        }
        assert forall|e: u32| #![trigger self.space_stats(e)] m0.has_space(e) implies self.space_stats(e) == (CapabilityStats {
            revoked: m0.space_stats(e).revoked.wrapping_add((m0.space_caps(e).len() - self.space_caps(e).len()) as u64),
            access_denied: if e == revoker {
                wrapping_add_nat(m0.space_stats(e).access_denied, unheld_examined(*m0, cap_id, revoker, r).len())
            } else {
                m0.space_stats(e).access_denied
            },
            ..m0.space_stats(e)
        }) by {
            assert(m1.has_space(e));
            let k = m1.space_index(e);
            m1.lemma_space_at(k);
            assert(self.spaces@[k].entity_id == e);
            self.lemma_space_at(k);
            assert(m1.space_stats(e) == m1.spaces@[k].stats);
        }
    }
}

/// What a revocation takes is determined by the manager, the capability
/// and the revoker: two sets that both meet `revocation_set` are equal.
pub proof fn lemma_revocation_set_unique(m: CapabilityManager, root: u64, revoker: u32, r1: Set<u64>, r2: Set<u64>)
    requires
        m.wf(),
        revocation_set(m, root, revoker, r1),
        revocation_set(m, root, revoker, r2),
    ensures
        r1 == r2,
{
    assert forall|x: u64| r1.contains(x) == r2.contains(x) by {
        lemma_revocation_member(m, root, revoker, r1, r2, x);
        lemma_revocation_member(m, root, revoker, r2, r1, x);
    }
    assert(r1 =~= r2);
}

proof fn lemma_revocation_member(m: CapabilityManager, root: u64, revoker: u32, r1: Set<u64>, r2: Set<u64>, x: u64)
    requires
        m.wf(),
        revocation_set(m, root, revoker, r1),
        revocation_set(m, root, revoker, r2),
    ensures
        r1.contains(x) ==> r2.contains(x),
    decreases x,
{
    if r1.contains(x) && x != root {
        let q = choose|q: u64| r1.contains(q) && #[trigger] derived_in(m, x, q);
        m.lemma_one_parent(x, q, q);
        lemma_revocation_member(m, root, revoker, r1, r2, q);
    }
}

/// A capability that its revoker may revoke is, after the revocation,
/// held by no space and gone from the registry.
pub proof fn lemma_revoked_gone(m: CapabilityManager, root: u64, revoker: u32, r: Set<u64>, caps: Seq<Capability>)
    requires
        revocation_set(m, root, revoker, r),
        may_revoke(m, revoker, root),
    ensures
        !seq_has_id(without_ids(caps, r), root),
{
    let kept = without_ids(caps, r);
    let pred = |c: Capability| !r.contains(c.id);
    if seq_has_id(kept, root) {
        let i = choose|i: int| 0 <= i < kept.len() && #[trigger] kept[i].id == root;
        caps.lemma_filter_pred(pred, i);
    }
}

/// Every right the kernel's root capability carries.
pub open spec fn root_rights_mask() -> u32 {
    CapabilityRights::READ | CapabilityRights::WRITE | CapabilityRights::EXECUTE | CapabilityRights::DERIVE
        | CapabilityRights::GRANT | CapabilityRights::REVOKE | CapabilityRights::TRANSFER
        | CapabilityRights::AI_TRAIN | CapabilityRights::AI_INFER | CapabilityRights::AI_PROFILE
        | CapabilityRights::AI_SECURE
}

/// Installs the kernel's root capability (entity 0, every right, whole
/// address space) in `manager`.
pub fn init(manager: &mut CapabilityManager, now: u64) -> (res: Result<(), &'static str>)
    requires
        old(manager).wf(),
        old(manager).next_id_spec() < u64::MAX,
    ensures
        final(manager).wf(),
        res == Ok::<(), &'static str>(()),
        final(manager).registry_view() == old(manager).registry_view().push(
            fresh_capability(
                old(manager).next_id_spec(),
                CapabilityType::Root,
                CapabilityRights(root_rights_mask()),
                0,
                usize::MAX,
                None,
                0,
                now,
                None,
            ),
        ),
        final(manager).space_caps(0) == old(manager).space_caps(0).push(
            fresh_capability(
                old(manager).next_id_spec(),
                CapabilityType::Root,
                CapabilityRights(root_rights_mask()),
                0,
                usize::MAX,
                None,
                0,
                now,
                None,
            ),
        ),
{
    let root_rights = CapabilityRights::new(
        CapabilityRights::READ | CapabilityRights::WRITE | CapabilityRights::EXECUTE | CapabilityRights::DERIVE
            | CapabilityRights::GRANT | CapabilityRights::REVOKE | CapabilityRights::TRANSFER
            | CapabilityRights::AI_TRAIN | CapabilityRights::AI_INFER | CapabilityRights::AI_PROFILE
            | CapabilityRights::AI_SECURE,
    );
    manager.create_capability(CapabilityType::Root, root_rights, 0, usize::MAX, 0, now)?;
    Ok(())
}

/// Creates a capability in `manager`.
pub fn create_capability(
    manager: &mut CapabilityManager,
    cap_type: CapabilityType,
    rights: CapabilityRights,
    address: u64,
    size: usize,
    owner: u32,
    now: u64,
) -> (res: Result<CapabilityId, &'static str>)
    requires
        old(manager).wf(),
        old(manager).next_id_spec() < u64::MAX,
    ensures
        final(manager).wf(),
        res == Ok::<CapabilityId, &'static str>(old(manager).next_id_spec()),
        final(manager).registry_view() == old(manager).registry_view().push(
            fresh_capability(old(manager).next_id_spec(), cap_type, rights, address, size, None, owner, now, None),
        ),
        final(manager).space_caps(owner) == old(manager).space_caps(owner).push(
            fresh_capability(old(manager).next_id_spec(), cap_type, rights, address, size, None, owner, now, None),
        ),
{
    manager.create_capability(cap_type, rights, address, size, owner, now)
}

/// Creates an AI capability in `manager`.
pub fn create_ai_capability(
    manager: &mut CapabilityManager,
    cap_type: CapabilityType,
    rights: CapabilityRights,
    model_hash: [u8; 32],
    security_level: u8,
    max_latency_us: u32,
    owner: u32,
    now: u64,
) -> (res: Result<CapabilityId, &'static str>)
    requires
        old(manager).wf(),
        old(manager).next_id_spec() < u64::MAX,
    ensures
        final(manager).wf(),
        res == Ok::<CapabilityId, &'static str>(old(manager).next_id_spec()),
        final(manager).registry_view() == old(manager).registry_view().push(
            fresh_capability(
                old(manager).next_id_spec(),
                cap_type,
                rights,
                0,
                0,
                None,
                owner,
                now,
                Some(
                    AiCapabilityMetadata {
                        model_hash,
                        security_level,
                        max_latency_us,
                        data_classification: DataClassification::Confidential,
                    },
                ),
            ),
        ),
{
    manager.create_ai_capability(cap_type, rights, model_hash, security_level, max_latency_us, owner, now)
}

/// Derives a capability in `manager`.
pub fn derive_capability(
    manager: &mut CapabilityManager,
    parent_id: CapabilityId,
    new_rights: CapabilityRights,
    context: DerivationContext,
    new_owner: u32,
    now: u64,
) -> (res: Result<CapabilityId, &'static str>)
    requires
        old(manager).wf(),
        old(manager).next_id_spec() < u64::MAX,
        derive_in_range(old(manager).registry_view(), parent_id, context),
    ensures
        final(manager).wf(),
        !seq_has_id(old(manager).registry_view(), parent_id) ==> res == Err::<CapabilityId, &'static str>(
            "Parent capability not found",
        ),
        seq_has_id(old(manager).registry_view(), parent_id) && cap_of(old(manager).registry_view(), parent_id).rights.0
            & CapabilityRights::DERIVE == 0 ==> res == Err::<CapabilityId, &'static str>(
            "Parent capability lacks DERIVE right",
        ),
        ({
            let p = cap_of(old(manager).registry_view(), parent_id);
            seq_has_id(old(manager).registry_view(), parent_id) && p.rights.0 & CapabilityRights::DERIVE != 0
                ==> (split_exceeds(context, p.size) ==> res == Err::<CapabilityId, &'static str>(
                "Split exceeds parent capability bounds",
            )) && (!split_exceeds(context, p.size) ==> res == Ok::<CapabilityId, &'static str>(
                old(manager).next_id_spec(),
            ) && final(manager).registry_view() == old(manager).registry_view().push(
                fresh_capability(
                    old(manager).next_id_spec(),
                    p.cap_type,
                    CapabilityRights(p.rights.0 & new_rights.0),
                    derived_range(context, p).0,
                    derived_range(context, p).1,
                    Some(parent_id),
                    new_owner,
                    now,
                    p.ai_metadata,
                ),
            ))
        }),
{
    manager.derive_capability(parent_id, new_rights, context, new_owner, now)
}

/// Checks capability access in `manager`.
pub fn check_capability(
    manager: &mut CapabilityManager,
    entity_id: u32,
    cap_id: CapabilityId,
    required_rights: CapabilityRights,
) -> (r: bool)
    requires
        old(manager).wf(),
    ensures
        final(manager).wf(),
        r == (old(manager).has_space(entity_id) && grants(
            old(manager).space_caps(entity_id),
            cap_id,
            required_rights.0,
        )),
{
    manager.check_capability(entity_id, cap_id, required_rights)
}

/// Revokes `cap_id` as `revoker` in `manager`; see
/// `CapabilityManager::revoke_capability`.
pub fn revoke_capability(manager: &mut CapabilityManager, cap_id: CapabilityId, revoker: u32) -> (res: Result<
    usize,
    &'static str,
>)
    requires
        old(manager).wf(),
    ensures
        final(manager).wf(),
        match res {
            Ok(n) => exists|r: Set<u64>|
                #[trigger] revocation_set(*old(manager), cap_id, revoker, r) && revoke_outcome(
                    *old(manager),
                    *final(manager),
                    cap_id,
                    revoker,
                    r,
                    n,
                ),
            Err(_) => false,
        },
{
    manager.revoke_capability(cap_id, revoker)
}

/// Statistics of `manager`.
pub fn get_stats(manager: &CapabilityManager) -> (r: CapabilityStats)
    ensures
        r == manager.stats_view(),
{
    manager.get_stats()
}

} // verus!
