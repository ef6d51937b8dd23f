use render_core::device::{DeviceProfile, DEVICE_LOCAL_BIT, HOST_COHERENT_BIT, HOST_VISIBLE_BIT};
use render_core::owned::OwnedHandle;
use render_core::planner::{
    Allocatable, AllocationTask, MemoryRequirements, PlanError, ResourceKind,
};
use render_core::utils::{align_up, clamp, max_of_slice, null_terminated_str};

fn buffer(handle: u64, size: u64, alignment: u64, type_bits: u32) -> Allocatable {
    Allocatable {
        handle,
        kind: ResourceKind::Buffer,
        requirements: MemoryRequirements { size, alignment, type_bits },
        dedicated: false,
    }
}

fn image(handle: u64, size: u64, alignment: u64, type_bits: u32, dedicated: bool) -> Allocatable {
    Allocatable {
        handle,
        kind: ResourceKind::Image,
        requirements: MemoryRequirements { size, alignment, type_bits },
        dedicated,
    }
}

fn profile() -> DeviceProfile {
    DeviceProfile {
        memory_type_flags: vec![
            DEVICE_LOCAL_BIT,
            HOST_VISIBLE_BIT | HOST_COHERENT_BIT,
            DEVICE_LOCAL_BIT | HOST_VISIBLE_BIT | HOST_COHERENT_BIT,
        ],
        atom_size: 64,
    }
}

#[test]
fn align_up_values() {
    assert_eq!(align_up(0, 64), 0);
    assert_eq!(align_up(1, 64), 64);
    assert_eq!(align_up(64, 64), 64);
    assert_eq!(align_up(65, 64), 128);
    assert_eq!(align_up(13, 8), 16);
    assert_eq!(align_up(10, 1), 10);
}

#[test]
fn clamp_values() {
    assert_eq!(clamp(5, 1, 10), 5);
    assert_eq!(clamp(0, 1, 10), 1);
    assert_eq!(clamp(20, 1, 10), 10);
    assert_eq!(clamp(5, 7, 3), 7);
}

#[test]
fn max_of_slice_values() {
    assert_eq!(max_of_slice(&[3, 9, 1]), 9);
    assert_eq!(max_of_slice(&[7]), 7);
}

#[test]
fn null_terminated_str_appends_nul() {
    assert_eq!(null_terminated_str("abc"), "abc\0");
    assert_eq!(null_terminated_str(""), "\0");
}

#[test]
fn empty_batch_gives_empty_plan() {
    let plan = AllocationTask::device().allocate_all(&profile()).unwrap();
    assert!(plan.blocks.is_empty());
    assert!(plan.bindings.is_empty());
}

#[test]
fn shared_offsets_respect_alignment_and_atom() {
    // Three shared buffers with alignments below and above the atom size.
    let task = AllocationTask::host_coherent()
        .add_allocatable(buffer(1, 100, 16, !0))
        .add_allocatable(buffer(2, 10, 4, !0))
        .add_allocatable(buffer(3, 30, 128, !0));
    let p = profile();
    let plan = task.allocate_all(&p).unwrap();

    assert_eq!(plan.bindings.len(), 3);
    // Alignment invariant: offset % max(alignment, atom) == 0.
    for b in plan.bindings.iter() {
        let alignment = match b.handle {
            1 => 16,
            2 => 4,
            _ => 128,
        };
        let slot = std::cmp::max(alignment, 64);
        assert_eq!(b.offset % slot, 0);
    }
    // Exact layout: 100 -> 128 reserved; the next starts at 128 and takes
    // 64; the third aligns 192 up to its own 128 boundary -> 256, takes 64;
    // total 320.
    assert_eq!(plan.bindings[0].offset, 0);
    assert_eq!(plan.bindings[0].size, 128);
    assert_eq!(plan.bindings[1].offset, 128);
    assert_eq!(plan.bindings[1].size, 64);
    assert_eq!(plan.bindings[2].offset, 256);
    assert_eq!(plan.bindings[2].size, 64);
    assert_eq!(plan.blocks.len(), 1);
    assert_eq!(plan.blocks[0].size, 320);
    // First memory type with host-visible + host-coherent flags is index 1.
    assert_eq!(plan.blocks[0].memory_type_index, 1);
}

#[test]
fn shared_ranges_do_not_overlap() {
    let task = AllocationTask::device()
        .add_allocatable(buffer(1, 17, 4, !0))
        .add_allocatable(buffer(2, 90, 32, !0))
        .add_allocatable(buffer(3, 1, 1, !0));
    let plan = task.allocate_all(&profile()).unwrap();
    for i in 0..plan.bindings.len() {
        for j in 0..plan.bindings.len() {
            if i != j && plan.bindings[i].block == plan.bindings[j].block {
                let a = &plan.bindings[i];
                let b = &plan.bindings[j];
                assert!(a.offset + a.size <= b.offset || b.offset + b.size <= a.offset);
            }
        }
    }
}

#[test]
fn block_sizes_cover_bindings_and_atom() {
    let task = AllocationTask::device()
        .add_allocatable(buffer(1, 100, 16, !0))
        .add_allocatable(image(2, 999, 256, !0, true))
        .add_allocatable(buffer(3, 5, 4, !0));
    let plan = task.allocate_all(&profile()).unwrap();
    for b in plan.bindings.iter() {
        let block = &plan.blocks[b.block];
        assert!(b.offset + b.size <= block.size);
    }
    for block in plan.blocks.iter() {
        assert_eq!(block.size % 64, 0);
    }
    // The dedicated image gets its size rounded up to the atom: 999 -> 1024.
    let dedicated = plan.bindings.iter().find(|b| b.dedicated).unwrap();
    assert_eq!(plan.blocks[dedicated.block].size, 1024);
    assert_eq!(dedicated.offset, 0);
    assert_eq!(dedicated.size, 999);
}

#[test]
fn dedicated_blocks_are_isolated() {
    let task = AllocationTask::device()
        .add_allocatable(image(1, 64, 64, !0, true))
        .add_allocatable(buffer(2, 64, 64, !0))
        .add_allocatable(image(3, 64, 64, !0, true));
    let plan = task.allocate_all(&profile()).unwrap();
    assert_eq!(plan.blocks.len(), 3);
    for (i, b) in plan.bindings.iter().enumerate() {
        if b.dedicated {
            for (j, other) in plan.bindings.iter().enumerate() {
                if i != j {
                    assert_ne!(other.block, b.block);
                }
            }
        }
    }
}

#[test]
fn no_memory_type_is_an_error() {
    // Requirement mask only allows type 0, which is not host-visible.
    let task = AllocationTask::host_coherent().add_allocatable(buffer(1, 8, 8, 0x1));
    assert_eq!(
        task.allocate_all(&profile()).unwrap_err(),
        PlanError::NoSuitableMemoryType
    );

    // A dedicated resource with an impossible mask fails too.
    let task = AllocationTask::device().add_allocatable(image(1, 8, 8, 0x2, true));
    assert_eq!(
        task.allocate_all(&profile()).unwrap_err(),
        PlanError::NoSuitableMemoryType
    );
}

#[test]
fn bindings_found_by_handle_and_kind() {
    let task = AllocationTask::device()
        .add_allocatable(buffer(5, 10, 4, !0))
        .add_allocatable(image(5, 20, 4, !0, false));
    let plan = task.allocate_all(&profile()).unwrap();
    let b = plan.pull_buffer_info(5).unwrap();
    assert_eq!(b.kind, ResourceKind::Buffer);
    assert_eq!(b.size, 64);
    let i = plan.pull_image_info(5).unwrap();
    assert_eq!(i.kind, ResourceKind::Image);
    assert_eq!(i.offset, 64);
    assert!(plan.pull_buffer_info(99).is_none());
}

#[test]
fn add_allocatables_extends_in_order() {
    let batch = vec![buffer(1, 64, 64, !0), buffer(2, 64, 64, !0)];
    let mut task = AllocationTask::device().add_allocatables(batch);
    task.add_allocatable_ref(buffer(3, 64, 64, !0));
    task.add_allocatables_ref(vec![buffer(4, 64, 64, !0)]);
    let plan = task.allocate_all(&profile()).unwrap();
    let handles: Vec<u64> = plan.bindings.iter().map(|b| b.handle).collect();
    assert_eq!(handles, vec![1, 2, 3, 4]);
}

#[test]
fn merging_plans_rebases_block_indices() {
    let p = profile();
    let first = AllocationTask::device()
        .add_allocatable(buffer(1, 64, 64, !0))
        .allocate_all(&p)
        .unwrap();
    let second = AllocationTask::device()
        .add_allocatable(buffer(2, 64, 64, !0))
        .add_allocatable(image(3, 64, 64, !0, true))
        .allocate_all(&p)
        .unwrap();

    let mut merged = first;
    merged.merge_mut(second);
    assert_eq!(merged.blocks.len(), 3);
    assert_eq!(merged.bindings.len(), 3);
    assert_eq!(merged.pull_buffer_info(1).unwrap().block, 0);
    assert_eq!(merged.pull_buffer_info(2).unwrap().block, 1);
    assert_eq!(merged.pull_image_info(3).unwrap().block, 2);
    // Dedicated isolation still holds across the merged plan.
    let dedicated = merged.pull_image_info(3).unwrap();
    for b in merged.bindings.iter() {
        if b.handle != 3 {
            assert_ne!(b.block, dedicated.block);
        }
    }
}

#[test]
fn merge_all_folds_in_order() {
    let p = profile();
    let plans: Vec<_> = (0..3u64)
        .map(|h| {
            AllocationTask::device()
                .add_allocatable(buffer(h, 64, 64, !0))
                .allocate_all(&p)
                .unwrap()
        })
        .collect();
    let merged = render_core::planner::AllocationPlan::merge_all(plans);
    assert_eq!(merged.blocks.len(), 3);
    let handles: Vec<u64> = merged.bindings.iter().map(|b| b.handle).collect();
    assert_eq!(handles, vec![0, 1, 2]);
    let blocks: Vec<usize> = merged.bindings.iter().map(|b| b.block).collect();
    assert_eq!(blocks, vec![0, 1, 2]);
}

#[test]
fn owned_handle_releases_exactly_once() {
    let mut owned = OwnedHandle::acquire(42, 0);
    assert_eq!(owned.get(), 42);
    assert!(owned.is_armed());
    assert_eq!(owned.take(), Some(42));
    assert!(!owned.is_armed());
    assert_eq!(owned.take(), None);
}

#[test]
fn owned_handle_ignores_sentinel() {
    let mut owned = OwnedHandle::acquire(0, 0);
    assert!(!owned.is_armed());
    assert_eq!(owned.take(), None);
}
