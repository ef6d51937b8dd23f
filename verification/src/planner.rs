//! The memory allocation planner.
//!
//! Given a batch of not-yet-backed GPU resources, each with the requirements
//! the device reported for it, the planner lays every non-dedicated resource
//! into one consolidated memory block — respecting both the resource's own
//! alignment and the device's non-coherent atom size — and gives each
//! dedicated resource a block of its own.  The result is a pure plan: which
//! blocks to allocate, at which memory type index, and where inside them each
//! resource is bound.  The application then performs the actual allocation
//! and bind calls.

use vstd::prelude::*;
use crate::device::{DeviceProfile, DEVICE_LOCAL_BIT, HOST_CACHED_BIT, HOST_COHERENT_BIT,
    HOST_VISIBLE_BIT};
use crate::utils::{align_up, lemma_align_up, spec_align_up};

verus! {

/// Whether a handle names a buffer or an image.
#[derive(Clone, Copy, Debug, PartialEq, Eq, Structural)]
pub enum ResourceKind {
    Buffer,
    Image,
}

/// What the device reports about one resource: its byte size, the alignment
/// its offset must satisfy, and the mask of memory types that may back it.
#[derive(Clone, Copy, Debug, PartialEq, Eq, Structural)]
pub struct MemoryRequirements {
    pub size: u64,
    pub alignment: u64,
    pub type_bits: u32,
}

/// A resource awaiting a memory binding: its raw handle, its kind, the
/// requirements the device reported, and whether the device asked for a
/// dedicated allocation.
#[derive(Clone, Copy, Debug, PartialEq, Eq, Structural)]
pub struct Allocatable {
    pub handle: u64,
    pub kind: ResourceKind,
    pub requirements: MemoryRequirements,
    pub dedicated: bool,
}

/// One planned memory allocation: its total byte size and the memory type
/// index to allocate it at.
#[derive(Clone, Copy, Debug, PartialEq, Eq, Structural)]
pub struct MemoryBlock {
    pub size: u64,
    pub memory_type_index: u32,
}

/// The recorded mapping of one resource to its memory block (an index into
/// the plan's block list), its offset inside that block, and the byte size
/// reserved for it there.
#[derive(Clone, Copy, Debug, PartialEq, Eq, Structural)]
pub struct BindingRecord {
    pub handle: u64,
    pub kind: ResourceKind,
    pub block: usize,
    pub offset: u64,
    pub size: u64,
    pub dedicated: bool,
}

/// Everything the planner decided: the memory blocks to allocate and one
/// binding record per input resource, in input order.
#[derive(Clone, Debug)]
pub struct AllocationPlan {
    pub blocks: Vec<MemoryBlock>,
    pub bindings: Vec<BindingRecord>,
}

/// The one non-recoverable planning failure: no memory type of the device
/// satisfies a request's type mask together with the desired property flags.
#[derive(Clone, Copy, Debug, PartialEq, Eq, Structural)]
pub enum PlanError {
    NoSuitableMemoryType,
}

/// The alignment a sub-allocated resource actually gets: the larger of its
/// own alignment and the device's atom size, so that every sub-range starts
/// on a flushable boundary.
pub open spec fn slot_align(alignment: int, atom: int) -> int {
    if alignment > atom {
        alignment
    } else {
        atom
    }
}

/// The running end offset of the consolidated block after the first `n`
/// allocatables have been considered: dedicated ones take no room here, and
/// each shared one starts at its aligned offset and reserves its size rounded
/// up to the atom.
pub open spec fn shared_end(allocs: Seq<Allocatable>, atom: int, n: int) -> int
    decreases n,
{
    if n <= 0 {
        0
    } else {
        let prev = shared_end(allocs, atom, n - 1);
        let a = allocs[n - 1];
        if a.dedicated {
            prev
        } else {
            spec_align_up(prev, slot_align(a.requirements.alignment as int, atom))
                + spec_align_up(a.requirements.size as int, atom)
        }
    }
}

/// How many of the first `n` allocatables are dedicated.
pub open spec fn dedicated_count(allocs: Seq<Allocatable>, n: int) -> int
    decreases n,
{
    if n <= 0 {
        0
    } else {
        dedicated_count(allocs, n - 1) + if allocs[n - 1].dedicated {
            1int
        } else {
            0int
        }
    }
}

/// Whether any of the first `n` allocatables asks for the consolidated block.
pub open spec fn has_shared(allocs: Seq<Allocatable>, n: int) -> bool {
    exists|i: int| 0 <= i < n && !allocs[i].dedicated
}

/// The requirement masks of all shared allocatables among the first `n`,
/// intersected; a memory type for the consolidated block must be allowed by
/// every one of them.
pub open spec fn combined_type_bits(allocs: Seq<Allocatable>, n: int) -> u32
    decreases n,
{
    if n <= 0 {
        0xffff_ffffu32
    } else {
        let prev = combined_type_bits(allocs, n - 1);
        if allocs[n - 1].dedicated {
            prev
        } else {
            prev & allocs[n - 1].requirements.type_bits
        }
    }
}

/// Every alignment the planner will respect is positive.
pub open spec fn allocs_wf(allocs: Seq<Allocatable>) -> bool {
    forall|i: int| 0 <= i < allocs.len() ==> #[trigger] allocs[i].requirements.alignment >= 1
}

/// The plan's offsets and sizes all stay inside `u64`; this is the machine
/// limit the exec arithmetic needs, stated over the same model the contracts
/// use.
pub open spec fn plan_fits(allocs: Seq<Allocatable>, atom: int) -> bool {
    &&& forall|i: int| 0 <= i < allocs.len() ==>
        #[trigger] allocs[i].requirements.size + atom - 1 <= u64::MAX
    &&& forall|i: int| 0 <= i < allocs.len() && !allocs[i].dedicated ==>
        shared_end(allocs, atom, i)
            + slot_align(#[trigger] allocs[i].requirements.alignment as int, atom) - 1 <= u64::MAX
    &&& shared_end(allocs, atom, allocs.len() as int) + atom - 1 <= u64::MAX
}

/// Where the consolidated block places allocatable `i`, assuming it is not
/// dedicated: the running end so far, rounded up to the resource's effective
/// alignment.
pub open spec fn planned_offset(allocs: Seq<Allocatable>, atom: int, i: int) -> int {
    spec_align_up(
        shared_end(allocs, atom, i),
        slot_align(allocs[i].requirements.alignment as int, atom),
    )
}

/// The total size of the consolidated block: the final running end, rounded
/// up to the atom once more.
pub open spec fn shared_total(allocs: Seq<Allocatable>, atom: int) -> int {
    spec_align_up(shared_end(allocs, atom, allocs.len() as int), atom)
}

/// Planning succeeds exactly when the device offers a memory type for the
/// consolidated block (if one is needed) and one for every dedicated
/// resource.
pub open spec fn spec_plan_succeeds(
    allocs: Seq<Allocatable>,
    flags: u32,
    profile: DeviceProfile,
) -> bool {
    &&& (has_shared(allocs, allocs.len() as int) ==> exists|j: int|
        profile.spec_suitable(combined_type_bits(allocs, allocs.len() as int), flags, j))
    &&& (forall|i: int| 0 <= i < allocs.len() && allocs[i].dedicated ==> exists|j: int|
        profile.spec_suitable((#[trigger] allocs[i]).requirements.type_bits, flags, j))
}

/// The running end offset never goes negative.
pub proof fn lemma_shared_end_nonneg(allocs: Seq<Allocatable>, atom: int, n: int)
    requires
        allocs_wf(allocs),
        atom >= 1,
        n <= allocs.len(),
    ensures
        0 <= shared_end(allocs, atom, n),
    decreases n,
{
    if n > 0 {
        lemma_shared_end_nonneg(allocs, atom, n - 1);
        let prev = shared_end(allocs, atom, n - 1);
        let a = allocs[n - 1];
        if !a.dedicated {
            lemma_align_up(prev, slot_align(a.requirements.alignment as int, atom));
            lemma_align_up(a.requirements.size as int, atom);
        }
    }
}

/// The running end offset never moves backwards.
pub proof fn lemma_shared_end_monotone(allocs: Seq<Allocatable>, atom: int, n: int, m: int)
    requires
        allocs_wf(allocs),
        atom >= 1,
        0 <= n <= m <= allocs.len(),
    ensures
        shared_end(allocs, atom, n) <= shared_end(allocs, atom, m),
    decreases m - n,
{
    if n < m {
        lemma_shared_end_monotone(allocs, atom, n, m - 1);
        lemma_shared_end_nonneg(allocs, atom, m - 1);
        let prev = shared_end(allocs, atom, m - 1);
        let a = allocs[m - 1];
        if !a.dedicated {
            lemma_align_up(prev, slot_align(a.requirements.alignment as int, atom));
            lemma_align_up(a.requirements.size as int, atom);
        }
    }
}

/// The dedicated count never goes negative.
pub proof fn lemma_dedicated_count_nonneg(allocs: Seq<Allocatable>, n: int)
    requires
        n <= allocs.len(),
    ensures
        0 <= dedicated_count(allocs, n),
    decreases n,
{
    if n > 0 {
        lemma_dedicated_count_nonneg(allocs, n - 1);
    }
}

/// The dedicated count never decreases.
pub proof fn lemma_dedicated_count_monotone(allocs: Seq<Allocatable>, n: int, m: int)
    requires
        0 <= n <= m <= allocs.len(),
    ensures
        dedicated_count(allocs, n) <= dedicated_count(allocs, m),
    decreases m - n,
{
    if n < m {
        lemma_dedicated_count_monotone(allocs, n, m - 1);
    }
}

/// The plan pins every decision down: one binding per input, in input order,
/// shared resources laid out in the consolidated block at index 0, dedicated
/// resources each in a fresh block of their own, and every block at the first
/// suitable memory type index.
pub open spec fn plan_placement(
    plan: AllocationPlan,
    allocs: Seq<Allocatable>,
    atom: int,
    flags: u32,
    profile: DeviceProfile,
) -> bool {
    let base: int = if has_shared(allocs, allocs.len() as int) {
        1
    } else {
        0
    };
    &&& plan.bindings@.len() == allocs.len()
    &&& plan.blocks@.len() == base + dedicated_count(allocs, allocs.len() as int)
    &&& forall|i: int| 0 <= i < allocs.len() ==> {
        let b = #[trigger] plan.bindings@[i];
        &&& b.handle == allocs[i].handle
        &&& b.kind == allocs[i].kind
        &&& b.dedicated == allocs[i].dedicated
        &&& b.block < plan.blocks@.len()
        &&& if allocs[i].dedicated {
            &&& b.block == base + dedicated_count(allocs, i)
            &&& b.offset == 0
            &&& b.size == allocs[i].requirements.size
            &&& plan.blocks@[b.block as int].size == spec_align_up(
                allocs[i].requirements.size as int,
                atom,
            )
            &&& profile.spec_first_suitable(
                allocs[i].requirements.type_bits,
                flags,
                plan.blocks@[b.block as int].memory_type_index as int,
            )
        } else {
            &&& b.block == 0
            &&& b.offset == planned_offset(allocs, atom, i)
            &&& b.size == spec_align_up(allocs[i].requirements.size as int, atom)
        }
    }
    &&& (has_shared(allocs, allocs.len() as int) ==> {
        &&& plan.blocks@[0].size == shared_total(allocs, atom)
        &&& profile.spec_first_suitable(
            combined_type_bits(allocs, allocs.len() as int),
            flags,
            plan.blocks@[0].memory_type_index as int,
        )
    })
    &&& forall|b: int| 0 <= b < plan.blocks@.len() ==> (#[trigger] plan.blocks@[b]).size as int
        % atom == 0
}

/// Alignment invariant: every binding's offset is a multiple of the larger
/// of the resource's alignment and the atom size.
pub open spec fn plan_aligned(plan: AllocationPlan, allocs: Seq<Allocatable>, atom: int) -> bool {
    forall|i: int| 0 <= i < allocs.len() && i < plan.bindings@.len() ==> (
    #[trigger] plan.bindings@[i]).offset as int % slot_align(
        allocs[i].requirements.alignment as int,
        atom,
    ) == 0
}

/// Non-overlap invariant: two bindings that share a memory block occupy
/// disjoint ranges; the earlier one ends before the later one starts.
pub open spec fn plan_disjoint(plan: AllocationPlan) -> bool {
    forall|i: int, j: int|
        0 <= i < j < plan.bindings@.len() && (#[trigger] plan.bindings@[i]).block == (
        #[trigger] plan.bindings@[j]).block ==> plan.bindings@[i].offset + plan.bindings@[i].size
            <= plan.bindings@[j].offset
}

/// Total-size invariant: every bound range ends inside its block, and every
/// block's size is a multiple of the atom size.
pub open spec fn plan_covered(plan: AllocationPlan, atom: int) -> bool {
    &&& forall|i: int| 0 <= i < plan.bindings@.len() ==> {
        let b = #[trigger] plan.bindings@[i];
        &&& b.block < plan.blocks@.len()
        &&& b.offset + b.size <= plan.blocks@[b.block as int].size
    }
    &&& forall|b: int| 0 <= b < plan.blocks@.len() ==> (#[trigger] plan.blocks@[b]).size as int
        % atom == 0
}

/// Dedicated isolation: a block backing a dedicated binding backs nothing
/// else.
pub open spec fn plan_dedicated_isolated(plan: AllocationPlan) -> bool {
    forall|i: int, j: int|
        0 <= i < plan.bindings@.len() && 0 <= j < plan.bindings@.len() && i != j && (
        #[trigger] plan.bindings@[i]).dedicated ==> (#[trigger] plan.bindings@[j]).block
            != plan.bindings@[i].block
}

/// The bytes the first `n` bindings reserve inside one block, put together.
pub open spec fn bound_size_sum(bindings: Seq<BindingRecord>, block: int, n: int) -> int
    decreases n,
{
    if n <= 0 {
        0
    } else {
        bound_size_sum(bindings, block, n - 1) + if bindings[n - 1].block == block {
            bindings[n - 1].size as int
        } else {
            0int
        }
    }
}

/// In a block no shared binding uses, contributions come from dedicated
/// bindings alone, and dedicated isolation leaves room for at most one.
proof fn lemma_dedicated_block_sum(
    plan: AllocationPlan,
    allocs: Seq<Allocatable>,
    atom: int,
    flags: u32,
    profile: DeviceProfile,
    b: int,
    n: int,
)
    requires
        allocs_wf(allocs),
        atom >= 1,
        plan_placement(plan, allocs, atom, flags, profile),
        0 <= b < plan.blocks@.len(),
        !(has_shared(allocs, allocs.len() as int) && b == 0),
        0 <= n <= allocs.len(),
    ensures
        bound_size_sum(plan.bindings@, b, n) <= plan.blocks@[b].size,
        bound_size_sum(plan.bindings@, b, n) > 0 ==> exists|i: int|
            0 <= i < n && (#[trigger] plan.bindings@[i]).block == b,
    decreases n,
{
    if n > 0 {
        lemma_dedicated_block_sum(plan, allocs, atom, flags, profile, b, n - 1);
        let bd = plan.bindings@[n - 1];
        if bd.block == b {
            if !allocs[n - 1].dedicated {
                assert(has_shared(allocs, allocs.len() as int));
                assert(false);
            }
            lemma_plan_laws(plan, allocs, atom, flags, profile);
            if bound_size_sum(plan.bindings@, b, n - 1) > 0 {
                let i = choose|i: int|
                    0 <= i < n - 1 && (#[trigger] plan.bindings@[i]).block == b;
                assert(plan.bindings@[i].block != bd.block);
                assert(false);
            }
            lemma_align_up(allocs[n - 1].requirements.size as int, atom);
        }
    }
}

/// In the consolidated block the reserved sizes never outrun the running
/// end.
proof fn lemma_shared_block_sum(
    plan: AllocationPlan,
    allocs: Seq<Allocatable>,
    atom: int,
    flags: u32,
    profile: DeviceProfile,
    n: int,
)
    requires
        allocs_wf(allocs),
        atom >= 1,
        plan_placement(plan, allocs, atom, flags, profile),
        has_shared(allocs, allocs.len() as int),
        0 <= n <= allocs.len(),
    ensures
        bound_size_sum(plan.bindings@, 0, n) <= shared_end(allocs, atom, n),
    decreases n,
{
    if n > 0 {
        lemma_shared_block_sum(plan, allocs, atom, flags, profile, n - 1);
        lemma_shared_end_nonneg(allocs, atom, n - 1);
        let bd = plan.bindings@[n - 1];
        if bd.block == 0 {
            if allocs[n - 1].dedicated {
                lemma_dedicated_count_nonneg(allocs, n - 1);
                assert(false);
            }
            lemma_align_up(
                shared_end(allocs, atom, n - 1),
                slot_align(allocs[n - 1].requirements.alignment as int, atom),
            );
            lemma_align_up(allocs[n - 1].requirements.size as int, atom);
        } else {
            lemma_shared_end_monotone(allocs, atom, n - 1, n);
        }
    }
}

/// Total-size invariant, summed form: a block is never smaller than all the
/// bytes reserved inside it put together.
pub proof fn lemma_block_size_covers_sum(
    plan: AllocationPlan,
    allocs: Seq<Allocatable>,
    atom: int,
    flags: u32,
    profile: DeviceProfile,
)
    requires
        allocs_wf(allocs),
        atom >= 1,
        plan_placement(plan, allocs, atom, flags, profile),
    ensures
        forall|b: int| 0 <= b < plan.blocks@.len() ==> bound_size_sum(
            plan.bindings@,
            b,
            plan.bindings@.len() as int,
        ) <= (#[trigger] plan.blocks@[b]).size,
{
    let n = allocs.len() as int;
    assert forall|b: int| 0 <= b < plan.blocks@.len() implies bound_size_sum(
        plan.bindings@,
        b,
        plan.bindings@.len() as int,
    ) <= (#[trigger] plan.blocks@[b]).size by {
        if has_shared(allocs, n) && b == 0 {
            lemma_shared_block_sum(plan, allocs, atom, flags, profile, n);
            lemma_shared_end_nonneg(allocs, atom, n);
            lemma_align_up(shared_end(allocs, atom, n), atom);
        } else {
            lemma_dedicated_block_sum(plan, allocs, atom, flags, profile, b, n);
        }
    }
}

/// Whether a binding record belongs to the resource named by `handle` and
/// `kind`.
pub open spec fn binding_matches(b: BindingRecord, handle: u64, kind: ResourceKind) -> bool {
    b.handle == handle && b.kind == kind
}

impl AllocationPlan {
    /// The first binding recorded for the given resource, or `None` when the
    /// plan holds no binding for it.
    fn pull_info(&self, handle: u64, kind: ResourceKind) -> (r: Option<BindingRecord>)
        ensures
            match r {
                Some(b) => exists|i: int|
                    {
                        &&& 0 <= i < self.bindings@.len()
                        &&& #[trigger] self.bindings@[i] == b
                        &&& binding_matches(b, handle, kind)
                        &&& forall|j: int| 0 <= j < i ==> !binding_matches(
                            #[trigger] self.bindings@[j],
                            handle,
                            kind,
                        )
                    },
                None => forall|j: int| 0 <= j < self.bindings@.len() ==> !binding_matches(
                    #[trigger] self.bindings@[j],
                    handle,
                    kind,
                ),
            },
    {
        let mut i: usize = 0;
        let count = self.bindings.len();
        while i < count
            invariant
                count == self.bindings@.len(),
                i <= count,
                forall|j: int| 0 <= j < i ==> !binding_matches(
                    #[trigger] self.bindings@[j],
                    handle,
                    kind,
                ),
            decreases count - i,
        {
            let b = self.bindings[i];
            let kind_matches = match (b.kind, kind) {
                (ResourceKind::Buffer, ResourceKind::Buffer) => true,
                (ResourceKind::Image, ResourceKind::Image) => true,
                _ => false,
            };
            if b.handle == handle && kind_matches {
                return Some(b);
            }
            i = i + 1;
        }
        None
    }

    /// Look a buffer's binding up by its handle.
    pub fn pull_buffer_info(&self, buffer: u64) -> (r: Option<BindingRecord>)
        ensures
            match r {
                Some(b) => exists|i: int|
                    {
                        &&& 0 <= i < self.bindings@.len()
                        &&& #[trigger] self.bindings@[i] == b
                        &&& binding_matches(b, buffer, ResourceKind::Buffer)
                    },
                None => forall|j: int| 0 <= j < self.bindings@.len() ==> !binding_matches(
                    #[trigger] self.bindings@[j],
                    buffer,
                    ResourceKind::Buffer,
                ),
            },
    {
        self.pull_info(buffer, ResourceKind::Buffer)
    }

    /// Look an image's binding up by its handle.
    pub fn pull_image_info(&self, image: u64) -> (r: Option<BindingRecord>)
        ensures
            match r {
                Some(b) => exists|i: int|
                    {
                        &&& 0 <= i < self.bindings@.len()
                        &&& #[trigger] self.bindings@[i] == b
                        &&& binding_matches(b, image, ResourceKind::Image)
                    },
                None => forall|j: int| 0 <= j < self.bindings@.len() ==> !binding_matches(
                    #[trigger] self.bindings@[j],
                    image,
                    ResourceKind::Image,
                ),
            },
    {
        self.pull_info(image, ResourceKind::Image)
    }
}

/// A plan's bindings only name blocks the plan has.
pub open spec fn plan_wf(plan: AllocationPlan) -> bool {
    forall|i: int| 0 <= i < plan.bindings@.len() ==> (#[trigger] plan.bindings@[i]).block
        < plan.blocks@.len()
}

/// Bindings carried over from a merged-in plan: the same records, with their
/// block indices shifted past the blocks already present.
pub open spec fn spec_rebase(bindings: Seq<BindingRecord>, base: int) -> Seq<BindingRecord> {
    bindings.map(|_i: int, b: BindingRecord| BindingRecord { block: (b.block + base) as usize, ..b })
}

/// What folding a whole list of plans together yields: the block lists
/// concatenated, and each plan's bindings shifted past the blocks before
/// them.
pub open spec fn spec_merge_all(plans: Seq<AllocationPlan>) -> AllocationPlanView
    decreases plans.len(),
{
    if plans.len() == 0 {
        AllocationPlanView { blocks: Seq::empty(), bindings: Seq::empty() }
    } else {
        let acc = spec_merge_all(plans.drop_last());
        let p = plans.last();
        AllocationPlanView {
            blocks: acc.blocks + p.blocks@,
            bindings: acc.bindings + spec_rebase(p.bindings@, acc.blocks.len() as int),
        }
    }
}

/// Ghost image of a plan: its blocks and bindings as sequences.
pub struct AllocationPlanView {
    pub blocks: Seq<MemoryBlock>,
    pub bindings: Seq<BindingRecord>,
}

impl View for AllocationPlan {
    type V = AllocationPlanView;

    open spec fn view(&self) -> AllocationPlanView {
        AllocationPlanView { blocks: self.blocks@, bindings: self.bindings@ }
    }
}

impl Default for AllocationPlan {
    /// An empty plan: no blocks, no bindings.
    fn default() -> (r: Self)
        ensures
            r.blocks@ == Seq::<MemoryBlock>::empty(),
            r.bindings@ == Seq::<BindingRecord>::empty(),
    {
        AllocationPlan { blocks: Vec::new(), bindings: Vec::new() }
    }
}

impl AllocationPlan {
    /// Fold another plan into this one.  Existing records are untouched; the
    /// merged-in bindings keep their offsets and sizes and point at their own
    /// blocks, now appended after this plan's.
    pub fn merge_mut(&mut self, allocation_plan: AllocationPlan)
        requires
            plan_wf(allocation_plan),
        ensures
            final(self).blocks@ == old(self).blocks@ + allocation_plan.blocks@,
            final(self).bindings@ == old(self).bindings@ + spec_rebase(
                allocation_plan.bindings@,
                old(self).blocks@.len() as int,
            ),
    {
        let base = self.blocks.len();
        let mut other = allocation_plan;
        self.blocks.append(&mut other.blocks);
        let total_blocks = self.blocks.len();
        let ghost rebased = spec_rebase(allocation_plan.bindings@, base as int);
        let mut i: usize = 0;
        while i < other.bindings.len()
            invariant
                i <= other.bindings@.len(),
                other.bindings@ == allocation_plan.bindings@,
                plan_wf(allocation_plan),
                base == old(self).blocks@.len(),
                total_blocks == base + allocation_plan.blocks@.len(),
                rebased == spec_rebase(allocation_plan.bindings@, base as int),
                self.bindings@ == old(self).bindings@ + rebased.take(i as int),
                self.blocks@ == old(self).blocks@ + allocation_plan.blocks@,
            decreases other.bindings@.len() - i,
        {
            let b = other.bindings[i];
            proof {
                assert(b.block < allocation_plan.blocks@.len());
            }
            let record = BindingRecord { block: base + b.block, ..b };
            proof {
                assert(rebased[i as int] == record);
                assert((old(self).bindings@ + rebased.take(i as int)).push(record)
                    =~= old(self).bindings@ + rebased.take(i as int + 1));
            }
            self.bindings.push(record);
            i = i + 1;
        }
        proof {
            assert(rebased.take(other.bindings@.len() as int) =~= rebased);
        }
    }

    /// A plan holding exactly the given plan's records.
    pub fn merge(allocation_plan: AllocationPlan) -> (r: Self)
        requires
            plan_wf(allocation_plan),
        ensures
            r.blocks@ == allocation_plan.blocks@,
            r.bindings@ == allocation_plan.bindings@,
    {
        let mut info = AllocationPlan::default();
        info.merge_mut(allocation_plan);
        proof {
            assert(info.blocks@ =~= allocation_plan.blocks@);
            assert(spec_rebase(allocation_plan.bindings@, 0) =~= allocation_plan.bindings@);
            assert(info.bindings@ =~= allocation_plan.bindings@);
        }
        info
    }

    /// Fold a whole list of plans into one.
    pub fn merge_all(allocation_plans: Vec<AllocationPlan>) -> (r: Self)
        requires
            forall|p: int| 0 <= p < allocation_plans@.len() ==> plan_wf(
                #[trigger] allocation_plans@[p],
            ),
        ensures
            r@ == spec_merge_all(allocation_plans@),
    {
        let ghost plans = allocation_plans@;
        let mut remaining = allocation_plans;
        let mut info = AllocationPlan::default();
        let mut i: usize = 0;
        let count = remaining.len();
        while i < count
            invariant
                i <= count,
                count == plans.len(),
                remaining@ == plans.skip(i as int),
                forall|p: int| 0 <= p < plans.len() ==> plan_wf(#[trigger] plans[p]),
                info@ == spec_merge_all(plans.take(i as int)),
            decreases count - i,
        {
            let next = remaining.remove(0);
            proof {
                assert(plans.skip(i as int).remove(0) =~= plans.skip(i as int + 1));
                assert(plans.take(i as int + 1).drop_last() =~= plans.take(i as int));
            }
            info.merge_mut(next);
            i = i + 1;
        }
        proof {
            assert(plans.take(count as int) =~= plans);
        }
        info
    }
}

/// The stated invariants survive a merge: bindings stay disjoint, blocks
/// still cover them at atom-multiple sizes, and dedicated blocks stay
/// isolated — records from different plans can never collide, because the
/// merged-in blocks come after all existing ones.
pub proof fn lemma_merge_preserves_laws(
    merged: AllocationPlan,
    left: AllocationPlan,
    right: AllocationPlan,
    atom: int,
)
    requires
        merged.blocks@ == left.blocks@ + right.blocks@,
        merged.bindings@ == left.bindings@ + spec_rebase(
            right.bindings@,
            left.blocks@.len() as int,
        ),
        plan_wf(left),
        plan_wf(right),
        left.blocks@.len() + right.blocks@.len() <= usize::MAX,
        plan_disjoint(left),
        plan_disjoint(right),
        plan_covered(left, atom),
        plan_covered(right, atom),
        plan_dedicated_isolated(left),
        plan_dedicated_isolated(right),
    ensures
        plan_wf(merged),
        plan_disjoint(merged),
        plan_covered(merged, atom),
        plan_dedicated_isolated(merged),
{
    let ln = left.bindings@.len() as int;
    let lb = left.blocks@.len() as int;
    assert forall|i: int| 0 <= i < merged.bindings@.len() implies {
        let b = #[trigger] merged.bindings@[i];
        &&& b.block < merged.blocks@.len()
        &&& b.offset + b.size <= merged.blocks@[b.block as int].size
    } by {
        if i < ln {
            assert(merged.bindings@[i] == left.bindings@[i]);
        } else {
            assert(merged.bindings@[i] == spec_rebase(right.bindings@, lb)[i - ln]);
            assert(right.bindings@[i - ln].block < right.blocks@.len());
        }
    }
    assert forall|i: int, j: int|
        0 <= i < j < merged.bindings@.len() && (#[trigger] merged.bindings@[i]).block == (
        #[trigger] merged.bindings@[j]).block implies merged.bindings@[i].offset
        + merged.bindings@[i].size <= merged.bindings@[j].offset by {
        if i < ln && j >= ln {
            assert(merged.bindings@[i].block < lb);
            assert(merged.bindings@[j].block >= lb);
        }
    }
    assert forall|b: int| 0 <= b < merged.blocks@.len() implies (
    #[trigger] merged.blocks@[b]).size as int % atom == 0 by {
        if b < lb {
            assert(merged.blocks@[b] == left.blocks@[b]);
        } else {
            assert(merged.blocks@[b] == right.blocks@[b - lb]);
        }
    }
    assert forall|i: int, j: int|
        0 <= i < merged.bindings@.len() && 0 <= j < merged.bindings@.len() && i != j && (
        #[trigger] merged.bindings@[i]).dedicated implies (#[trigger] merged.bindings@[j]).block
        != merged.bindings@[i].block by {
        if i < ln && j < ln {
        } else if i >= ln && j >= ln {
            assert(merged.bindings@[i] == spec_rebase(right.bindings@, lb)[i - ln]);
            assert(merged.bindings@[j] == spec_rebase(right.bindings@, lb)[j - ln]);
            assert(right.bindings@[i - ln].dedicated);
            assert(right.bindings@[j - ln].block != right.bindings@[i - ln].block);
        } else if i < ln {
            assert(merged.bindings@[i].block < lb);
            assert(merged.bindings@[j].block >= lb);
        } else {
            assert(merged.bindings@[i].block >= lb);
            assert(merged.bindings@[j].block < lb);
        }
    }
}

/// The packed size of a list of requirements when each is aligned to its own
/// boundary and laid out in order, with no atom rounding.
pub open spec fn spec_packed_size(reqs: Seq<MemoryRequirements>, n: int) -> int
    decreases n,
{
    if n <= 0 {
        0
    } else {
        spec_align_up(spec_packed_size(reqs, n - 1), reqs[n - 1].alignment as int) + reqs[n
            - 1].size as int
    }
}

/// The packed size never goes negative.
pub proof fn lemma_packed_size_nonneg(reqs: Seq<MemoryRequirements>, n: int)
    requires
        n <= reqs.len(),
        forall|i: int| 0 <= i < reqs.len() ==> #[trigger] reqs[i].alignment >= 1,
    ensures
        0 <= spec_packed_size(reqs, n),
    decreases n,
{
    if n > 0 {
        lemma_packed_size_nonneg(reqs, n - 1);
        lemma_align_up(spec_packed_size(reqs, n - 1), reqs[n - 1].alignment as int);
    }
}

/// The packed layout's intermediate offsets all stay inside `u64`.
pub open spec fn packed_fits(reqs: Seq<MemoryRequirements>) -> bool {
    forall|i: int| 0 <= i < reqs.len() ==> {
        &&& spec_packed_size(reqs, i) + (#[trigger] reqs[i]).alignment - 1 <= u64::MAX
        &&& spec_packed_size(reqs, i + 1) <= u64::MAX
    }
}

/// Total size of a tight, in-order layout of `memory_requirements`: each
/// resource is placed at the next offset aligned for it and occupies exactly
/// its own size.
#[verifier::rlimit(30)]
pub fn calculate_total_size(memory_requirements: &Vec<MemoryRequirements>) -> (r: u64)
    requires
        forall|i: int| 0 <= i < memory_requirements@.len() ==>
            #[trigger] memory_requirements@[i].alignment >= 1,
        packed_fits(memory_requirements@),
    ensures
        r == spec_packed_size(memory_requirements@, memory_requirements@.len() as int),
{
    let reqs = memory_requirements;
    let mut total_size: u64 = 0;
    let mut i: usize = 0;
    while i < reqs.len()
        invariant
            i <= reqs@.len(),
            reqs == memory_requirements,
            forall|t: int| 0 <= t < reqs@.len() ==> #[trigger] reqs@[t].alignment >= 1,
            packed_fits(reqs@),
            total_size == spec_packed_size(reqs@, i as int),
        decreases reqs@.len() - i,
    {
        proof {
            lemma_packed_size_nonneg(reqs@, i as int);
        }
        let req = &reqs[i];
        total_size = align_up(total_size, req.alignment);
        total_size = total_size + req.size;
        i = i + 1;
    }
    total_size
}

/// An ordered batch of resources to be backed with memory of one desired
/// property class.
pub struct AllocationTask {
    allocatables: Vec<Allocatable>,
    flags: u32,
}

impl AllocationTask {
    /// The batch gathered so far, in the order it was added.
    pub closed spec fn spec_allocatables(self) -> Seq<Allocatable> {
        self.allocatables@
    }

    /// The desired memory-property mask.
    pub closed spec fn spec_flags(self) -> u32 {
        self.flags
    }

    /// An empty batch aimed at memory with the given property flags.
    pub fn new(flags: u32) -> (r: Self)
        ensures
            r.spec_allocatables() == Seq::<Allocatable>::empty(),
            r.spec_flags() == flags,
    {
        AllocationTask { allocatables: Vec::new(), flags }
    }

    /// An empty batch aimed at device-local memory.
    pub fn device() -> (r: Self)
        ensures
            r.spec_allocatables() == Seq::<Allocatable>::empty(),
            r.spec_flags() == DEVICE_LOCAL_BIT,
    {
        Self::new(DEVICE_LOCAL_BIT)
    }

    /// An empty batch aimed at host-visible, host-cached memory.
    pub fn host_cached() -> (r: Self)
        ensures
            r.spec_allocatables() == Seq::<Allocatable>::empty(),
            r.spec_flags() == HOST_VISIBLE_BIT | HOST_CACHED_BIT,
    {
        Self::new(HOST_VISIBLE_BIT | HOST_CACHED_BIT)
    }

    /// An empty batch aimed at host-visible, host-coherent memory.
    pub fn host_coherent() -> (r: Self)
        ensures
            r.spec_allocatables() == Seq::<Allocatable>::empty(),
            r.spec_flags() == HOST_VISIBLE_BIT | HOST_COHERENT_BIT,
    {
        Self::new(HOST_VISIBLE_BIT | HOST_COHERENT_BIT)
    }

    /// Append one resource to the batch.
    pub fn add_allocatable(self, dest: Allocatable) -> (r: Self)
        ensures
            r.spec_allocatables() == self.spec_allocatables().push(dest),
            r.spec_flags() == self.spec_flags(),
    {
        let mut task = self;
        task.allocatables.push(dest);
        task
    }

    /// Append a whole list of resources to the batch.
    pub fn add_allocatables(self, dest: Vec<Allocatable>) -> (r: Self)
        ensures
            r.spec_allocatables() == self.spec_allocatables() + dest@,
            r.spec_flags() == self.spec_flags(),
    {
        let mut task = self;
        let mut dest = dest;
        task.allocatables.append(&mut dest);
        task
    }

    /// Append one resource to the batch, in place.
    pub fn add_allocatable_ref(&mut self, dest: Allocatable)
        ensures
            final(self).spec_allocatables() == old(self).spec_allocatables().push(dest),
            final(self).spec_flags() == old(self).spec_flags(),
    {
        self.allocatables.push(dest);
    }

    /// Append a whole list of resources to the batch, in place.
    pub fn add_allocatables_ref(&mut self, dest: Vec<Allocatable>)
        ensures
            final(self).spec_allocatables() == old(self).spec_allocatables() + dest@,
            final(self).spec_flags() == old(self).spec_flags(),
    {
        let mut dest = dest;
        self.allocatables.append(&mut dest);
    }

    /// Lay the whole batch out.  Shared resources are packed, in order, into
    /// one consolidated block whose memory type must satisfy every one of
    /// them; each dedicated resource gets a block of its own.  An empty batch
    /// yields an empty plan.  The only failure is a request no memory type of
    /// the device can satisfy.
    #[verifier::rlimit(60)]
    pub fn allocate_all(self, profile: &DeviceProfile) -> (r: Result<AllocationPlan, PlanError>)
        requires
            profile.wf(),
            allocs_wf(self.spec_allocatables()),
            plan_fits(self.spec_allocatables(), profile.atom_size as int),
        ensures
            match r {
                Ok(plan) => {
                    &&& spec_plan_succeeds(self.spec_allocatables(), self.spec_flags(), *profile)
                    &&& plan_placement(
                        plan,
                        self.spec_allocatables(),
                        profile.atom_size as int,
                        self.spec_flags(),
                        *profile,
                    )
                    &&& plan_aligned(plan, self.spec_allocatables(), profile.atom_size as int)
                    &&& plan_disjoint(plan)
                    &&& plan_covered(plan, profile.atom_size as int)
                    &&& plan_dedicated_isolated(plan)
                },
                Err(e) => {
                    &&& e == PlanError::NoSuitableMemoryType
                    &&& !spec_plan_succeeds(self.spec_allocatables(), self.spec_flags(), *profile)
                },
            },
    {
        let ghost allocs = self.allocatables@;
        let ghost atom_g = profile.atom_size as int;
        let atom = profile.atom_size;
        let n = self.allocatables.len();

        // First pass: the consolidated block's running end, the intersection
        // of the shared requirement masks, and whether a consolidated block
        // is needed at all.
        let mut total: u64 = 0;
        let mut combined: u32 = 0xffff_ffff;
        let mut any_shared = false;
        let mut i: usize = 0;
        while i < n
            invariant
                n == allocs.len(),
                i <= n,
                self.allocatables@ == allocs,
                allocs_wf(allocs),
                plan_fits(allocs, atom_g),
                atom == profile.atom_size,
                atom_g == atom as int,
                atom >= 1,
                total == shared_end(allocs, atom_g, i as int),
                combined == combined_type_bits(allocs, i as int),
                any_shared == has_shared(allocs, i as int),
            decreases n - i,
        {
            let a = &self.allocatables[i];
            if !a.dedicated {
                proof {
                    lemma_shared_end_nonneg(allocs, atom_g, i as int);
                    lemma_shared_end_monotone(allocs, atom_g, i as int + 1, n as int);
                }
                let slot = if a.requirements.alignment > atom {
                    a.requirements.alignment
                } else {
                    atom
                };
                let offset = align_up(total, slot);
                let reserved = align_up(a.requirements.size, atom);
                total = offset + reserved;
                combined = combined & a.requirements.type_bits;
                any_shared = true;
            }
            i = i + 1;
        }
        proof {
            lemma_shared_end_nonneg(allocs, atom_g, n as int);
        }
        let total_final = align_up(total, atom);

        let mut blocks: Vec<MemoryBlock> = Vec::new();
        if any_shared {
            match profile.find_memory_type(combined, self.flags) {
                Some(idx) => {
                    blocks.push(MemoryBlock { size: total_final, memory_type_index: idx });
                },
                None => {
                    return Err(PlanError::NoSuitableMemoryType);
                },
            }
        }
        let ghost base: int = if any_shared {
            1
        } else {
            0
        };

        // Second pass: assign every resource its block, offset and reserved
        // size, allocating a fresh block for each dedicated resource.
        let mut bindings: Vec<BindingRecord> = Vec::new();
        let mut current: u64 = 0;
        let mut k: usize = 0;
        while k < n
            invariant
                n == allocs.len(),
                k <= n,
                self.allocatables@ == allocs,
                allocs_wf(allocs),
                plan_fits(allocs, atom_g),
                atom == profile.atom_size,
                atom_g == atom as int,
                atom >= 1,
                profile.wf(),
                any_shared == has_shared(allocs, n as int),
                base == if any_shared { 1int } else { 0int },
                total_final == shared_total(allocs, atom_g),
                current == shared_end(allocs, atom_g, k as int),
                bindings@.len() == k,
                blocks@.len() == base + dedicated_count(allocs, k as int),
                any_shared ==> blocks@.len() >= 1 && blocks@[0].size == shared_total(allocs, atom_g)
                    && profile.spec_first_suitable(
                    combined_type_bits(allocs, n as int),
                    self.flags,
                    blocks@[0].memory_type_index as int,
                ),
                forall|t: int| 0 <= t < blocks@.len() ==> (#[trigger] blocks@[t]).size as int
                    % atom_g == 0,
                forall|t: int| 0 <= t < k ==> {
                    let b = #[trigger] bindings@[t];
                    &&& b.handle == allocs[t].handle
                    &&& b.kind == allocs[t].kind
                    &&& b.dedicated == allocs[t].dedicated
                    &&& b.block < blocks@.len()
                    &&& if allocs[t].dedicated {
                        &&& b.block == base + dedicated_count(allocs, t)
                        &&& b.offset == 0
                        &&& b.size == allocs[t].requirements.size
                        &&& blocks@[b.block as int].size == spec_align_up(
                            allocs[t].requirements.size as int,
                            atom_g,
                        )
                        &&& profile.spec_first_suitable(
                            allocs[t].requirements.type_bits,
                            self.flags,
                            blocks@[b.block as int].memory_type_index as int,
                        )
                    } else {
                        &&& b.block == 0
                        &&& b.offset == planned_offset(allocs, atom_g, t)
                        &&& b.size == spec_align_up(allocs[t].requirements.size as int, atom_g)
                    }
                },
            decreases n - k,
        {
            let a = &self.allocatables[k];
            proof {
                lemma_shared_end_nonneg(allocs, atom_g, k as int);
                lemma_dedicated_count_nonneg(allocs, k as int);
                lemma_dedicated_count_monotone(allocs, k as int, n as int);
            }
            if a.dedicated {
                let type_index = match profile.find_memory_type(a.requirements.type_bits, self.flags) {
                    Some(idx) => idx,
                    None => {
                        return Err(PlanError::NoSuitableMemoryType);
                    },
                };
                let bsize = align_up(a.requirements.size, atom);
                let block_index = blocks.len();
                blocks.push(MemoryBlock { size: bsize, memory_type_index: type_index });
                bindings.push(
                    BindingRecord {
                        handle: a.handle,
                        kind: a.kind,
                        block: block_index,
                        offset: 0,
                        size: a.requirements.size,
                        dedicated: true,
                    },
                );
            } else {
                proof {
                    lemma_shared_end_monotone(allocs, atom_g, k as int + 1, n as int);
                    lemma_align_up(shared_end(allocs, atom_g, n as int), atom_g);
                }
                let slot = if a.requirements.alignment > atom {
                    a.requirements.alignment
                } else {
                    atom
                };
                let offset = align_up(current, slot);
                let reserved = align_up(a.requirements.size, atom);
                current = offset + reserved;
                bindings.push(
                    BindingRecord {
                        handle: a.handle,
                        kind: a.kind,
                        block: 0,
                        offset,
                        size: reserved,
                        dedicated: false,
                    },
                );
            }
            k = k + 1;
        }

        let plan = AllocationPlan { blocks, bindings };
        proof {
            assert forall|t: int| 0 <= t < n && allocs[t].dedicated implies exists|j: int|
                profile.spec_suitable(
                    (#[trigger] allocs[t]).requirements.type_bits,
                    self.flags,
                    j,
                ) by {
                let b = plan.bindings@[t];
                assert(profile.spec_suitable(
                    allocs[t].requirements.type_bits,
                    self.flags,
                    plan.blocks@[b.block as int].memory_type_index as int,
                ));
            }
            lemma_plan_laws(plan, allocs, atom_g, self.flags, *profile);
        }
        Ok(plan)
    }
}

/// From the exact placement the planner promises, the four stated invariants
/// follow: aligned offsets, disjoint ranges, covered blocks of atom-multiple
/// size, and isolated dedicated blocks.
pub proof fn lemma_plan_laws(
    plan: AllocationPlan,
    allocs: Seq<Allocatable>,
    atom: int,
    flags: u32,
    profile: DeviceProfile,
)
    requires
        allocs_wf(allocs),
        atom >= 1,
        plan_placement(plan, allocs, atom, flags, profile),
    ensures
        plan_aligned(plan, allocs, atom),
        plan_disjoint(plan),
        plan_covered(plan, atom),
        plan_dedicated_isolated(plan),
{
    let n = allocs.len() as int;

    // Dedicated isolation: block indices of dedicated bindings are strictly
    // above the consolidated block and strictly increase with the index.
    assert forall|i: int, j: int|
        0 <= i < plan.bindings@.len() && 0 <= j < plan.bindings@.len() && i != j && (
        #[trigger] plan.bindings@[i]).dedicated implies (#[trigger] plan.bindings@[j]).block
        != plan.bindings@[i].block by {
        lemma_dedicated_count_nonneg(allocs, i);
        if plan.bindings@[j].dedicated {
            if i < j {
                lemma_dedicated_count_monotone(allocs, i + 1, j);
            } else {
                lemma_dedicated_count_monotone(allocs, j + 1, i);
            }
        } else {
            assert(!allocs[j].dedicated);
            assert(has_shared(allocs, n));
        }
    }

    // Alignment of every offset.
    assert forall|i: int| 0 <= i < allocs.len() && i < plan.bindings@.len() implies (
    #[trigger] plan.bindings@[i]).offset as int % slot_align(
        allocs[i].requirements.alignment as int,
        atom,
    ) == 0 by {
        let slot = slot_align(allocs[i].requirements.alignment as int, atom);
        if allocs[i].dedicated {
            assert(0int % slot == 0) by {
                vstd::arithmetic::div_mod::lemma_small_mod(0nat, slot as nat);
            }
        } else {
            lemma_shared_end_nonneg(allocs, atom, i);
            lemma_align_up(shared_end(allocs, atom, i), slot);
        }
    }

    // Disjointness: an earlier shared binding ends at the running end, which
    // never passes a later shared binding's aligned offset.
    assert forall|i: int, j: int|
        0 <= i < j < plan.bindings@.len() && (#[trigger] plan.bindings@[i]).block == (
        #[trigger] plan.bindings@[j]).block implies plan.bindings@[i].offset
        + plan.bindings@[i].size <= plan.bindings@[j].offset by {
        if !allocs[i].dedicated && !allocs[j].dedicated {
            lemma_shared_end_nonneg(allocs, atom, i);
            assert(plan.bindings@[i].offset + plan.bindings@[i].size == shared_end(
                allocs,
                atom,
                i + 1,
            ));
            lemma_shared_end_monotone(allocs, atom, i + 1, j);
            lemma_shared_end_nonneg(allocs, atom, j);
            lemma_align_up(
                shared_end(allocs, atom, j),
                slot_align(allocs[j].requirements.alignment as int, atom),
            );
        }
    }

    // Every range ends inside its block.
    assert forall|i: int| 0 <= i < plan.bindings@.len() implies {
        let b = #[trigger] plan.bindings@[i];
        b.block < plan.blocks@.len() && b.offset + b.size <= plan.blocks@[b.block as int].size
    } by {
        if allocs[i].dedicated {
            lemma_align_up(allocs[i].requirements.size as int, atom);
        } else {
            lemma_shared_end_nonneg(allocs, atom, i);
            assert(plan.bindings@[i].offset + plan.bindings@[i].size == shared_end(
                allocs,
                atom,
                i + 1,
            ));
            lemma_shared_end_monotone(allocs, atom, i + 1, n);
            lemma_shared_end_nonneg(allocs, atom, n);
            lemma_align_up(shared_end(allocs, atom, n), atom);
        }
    }
}

} // verus!
