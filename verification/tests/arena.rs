use xerv_core::arena::allocation::{AllocationEntry, AllocationTracker};
use xerv_core::arena::compaction::{align_offset, align_size, can_pack, compact};
use xerv_core::arena::header::{ArenaHeader, ARENA_MAGIC, ARENA_VERSION, HEADER_SIZE};
use xerv_core::types::{ArenaOffset, TraceId};

#[test]
fn track_allocations() {
    let mut tracker = AllocationTracker::new();

    tracker.record_allocation(ArenaOffset::new(0x100), 64);
    tracker.record_allocation(ArenaOffset::new(0x150), 32);
    tracker.record_allocation(ArenaOffset::new(0x180), 128);

    assert_eq!(tracker.allocation_count(), 3);
    assert_eq!(tracker.live_count(), 3);
    assert_eq!(tracker.total_allocated(), 64 + 32 + 128);
    assert_eq!(tracker.total_dead(), 0);
}

#[test]
fn mark_dead() {
    let mut tracker = AllocationTracker::new();

    tracker.record_allocation(ArenaOffset::new(0x100), 64);
    tracker.record_allocation(ArenaOffset::new(0x150), 32);

    tracker.mark_dead(ArenaOffset::new(0x100));

    assert_eq!(tracker.live_count(), 1);
    assert_eq!(tracker.total_dead(), 64);
    assert!(!tracker.is_live(ArenaOffset::new(0x100)));
    assert!(tracker.is_live(ArenaOffset::new(0x150)));
}

#[test]
fn get_live_allocations() {
    let mut tracker = AllocationTracker::new();

    tracker.record_allocation(ArenaOffset::new(0x200), 32);
    tracker.record_allocation(ArenaOffset::new(0x100), 64);
    tracker.record_allocation(ArenaOffset::new(0x150), 32);

    tracker.mark_dead(ArenaOffset::new(0x150));

    let live = tracker.get_live_allocations();
    assert_eq!(live.len(), 2);
    assert_eq!(live[0].offset.as_u64(), 0x100);
    assert_eq!(live[1].offset.as_u64(), 0x200);
}

#[test]
fn generation() {
    let mut tracker = AllocationTracker::new();

    assert_eq!(tracker.generation(), 1);

    tracker.record_allocation(ArenaOffset::new(0x100), 64);
    let first = tracker.get_live_allocations();
    assert_eq!(first.iter().find(|e| e.offset == ArenaOffset::new(0x100)).unwrap().generation, 1);

    let new_gen = tracker.increment_generation();
    assert_eq!(new_gen, 2);
    assert_eq!(tracker.generation(), 2);

    tracker.record_allocation(ArenaOffset::new(0x200), 64);
    let second = tracker.get_live_allocations();
    assert_eq!(second.iter().find(|e| e.offset == ArenaOffset::new(0x200)).unwrap().generation, 2);
}

#[test]
fn plan_compaction() {
    let mut tracker = AllocationTracker::new();

    tracker.record_allocation(ArenaOffset::new(0x100), 64);
    tracker.record_allocation(ArenaOffset::new(0x200), 64);
    tracker.record_allocation(ArenaOffset::new(0x300), 64);

    tracker.mark_dead(ArenaOffset::new(0x200));

    let plan = xerv_core::arena::compaction::plan_compaction(&tracker, ArenaOffset::new(0x100));

    assert_eq!(plan.moves().len(), 1);
    assert_eq!(plan.moves()[0].0.offset.as_u64(), 0x300);
    assert_eq!(plan.moves()[0].1.as_u64(), 0x140);
    assert_eq!(plan.bytes_to_reclaim(), 64);
    assert_eq!(plan.new_write_pos().as_u64(), 0x180);
}

#[test]
fn execute_compaction() {
    let mut tracker = AllocationTracker::new();
    let mut buffer = vec![0u8; 0x400];

    buffer[0x100..0x108].copy_from_slice(b"AAAAAAAA");
    tracker.record_allocation(ArenaOffset::new(0x100), 8);

    buffer[0x200..0x208].copy_from_slice(b"BBBBBBBB");
    tracker.record_allocation(ArenaOffset::new(0x200), 8);

    buffer[0x300..0x308].copy_from_slice(b"CCCCCCCC");
    tracker.record_allocation(ArenaOffset::new(0x300), 8);

    tracker.mark_dead(ArenaOffset::new(0x200));

    let result = compact(&mut tracker, &mut buffer, ArenaOffset::new(0x100)).unwrap();

    assert!(result.performed);
    assert_eq!(result.allocations_moved, 1);
    assert_eq!(result.bytes_reclaimed, 8);

    assert_eq!(&buffer[0x100..0x108], b"AAAAAAAA");
    assert_eq!(&buffer[0x108..0x110], b"CCCCCCCC");
}

#[test]
fn compaction_keeps_blocks_that_move_less_than_their_neighbour() {
    let mut tracker = AllocationTracker::new();
    let mut buffer = vec![0u8; 0x200];
    buffer[0x108..0x118].copy_from_slice(b"0123456789abcdef");
    buffer[0x120..0x128].copy_from_slice(b"CCCCCCCC");
    tracker.record_allocation(ArenaOffset::new(0x100), 8);
    tracker.record_allocation(ArenaOffset::new(0x108), 16);
    tracker.record_allocation(ArenaOffset::new(0x120), 8);
    tracker.mark_dead(ArenaOffset::new(0x100));

    let result = compact(&mut tracker, &mut buffer, ArenaOffset::new(0x100)).unwrap();

    assert!(result.performed);
    assert_eq!(result.allocations_moved, 2);
    assert_eq!(
        result.offset_map,
        vec![
            (ArenaOffset::new(0x108), ArenaOffset::new(0x100)),
            (ArenaOffset::new(0x120), ArenaOffset::new(0x110)),
        ]
    );
    assert_eq!(&buffer[0x100..0x110], b"0123456789abcdef");
    assert_eq!(&buffer[0x110..0x118], b"CCCCCCCC");
}

#[test]
fn compaction_rebuilds_the_tracker() {
    let mut tracker = AllocationTracker::new();
    let mut buffer = vec![0u8; 0x400];
    tracker.record_allocation(ArenaOffset::new(0x100), 8);
    tracker.record_allocation(ArenaOffset::new(0x200), 8);
    tracker.record_allocation(ArenaOffset::new(0x300), 8);
    tracker.mark_dead(ArenaOffset::new(0x200));

    let result = compact(&mut tracker, &mut buffer, ArenaOffset::new(0x100)).unwrap();

    assert_eq!(result.new_generation, 2);
    assert_eq!(result.bytes_used, 16);
    assert_eq!(result.offset_map, vec![(ArenaOffset::new(0x300), ArenaOffset::new(0x108))]);
    assert_eq!(tracker.generation(), 2);
    assert_eq!(tracker.allocation_count(), 2);
    assert_eq!(tracker.total_dead(), 0);
    assert!(tracker.is_live(ArenaOffset::new(0x108)));
    assert!(!tracker.is_live(ArenaOffset::new(0x300)));
}

#[test]
fn compaction_out_of_bounds_fails() {
    let mut tracker = AllocationTracker::new();
    let mut buffer = vec![0u8; 0x200];
    tracker.record_allocation(ArenaOffset::new(0x100), 8);
    tracker.record_allocation(ArenaOffset::new(0x200), 8);
    tracker.record_allocation(ArenaOffset::new(0x300), 8);
    tracker.mark_dead(ArenaOffset::new(0x200));

    assert!(compact(&mut tracker, &mut buffer, ArenaOffset::new(0x100)).is_err());
}

#[test]
fn align_offset_test() {
    assert_eq!(align_offset(ArenaOffset::new(0)).as_u64(), 0);
    assert_eq!(align_offset(ArenaOffset::new(1)).as_u64(), 8);
    assert_eq!(align_offset(ArenaOffset::new(7)).as_u64(), 8);
    assert_eq!(align_offset(ArenaOffset::new(8)).as_u64(), 8);
    assert_eq!(align_offset(ArenaOffset::new(9)).as_u64(), 16);
}

#[test]
fn align_size_test() {
    assert_eq!(align_size(0), 0);
    assert_eq!(align_size(1), 8);
    assert_eq!(align_size(7), 8);
    assert_eq!(align_size(8), 8);
    assert_eq!(align_size(9), 16);
}

#[test]
fn header_roundtrip() {
    let trace_id = TraceId::new();
    let header = ArenaHeader::new(trace_id, 1024 * 1024);

    let bytes = header.to_bytes().unwrap();
    assert_eq!(bytes.len(), HEADER_SIZE);

    let restored = ArenaHeader::from_bytes(&bytes).unwrap();
    assert_eq!(restored.magic, ARENA_MAGIC);
    assert_eq!(restored.version, ARENA_VERSION);
    assert_eq!(restored.trace_id, trace_id);
    assert_eq!(restored.capacity, 1024 * 1024);
}

#[test]
fn header_validation() {
    let header = ArenaHeader::new(TraceId::new(), 1024);
    assert!(header.validate().is_ok());

    let mut bad_magic = header;
    bad_magic.magic = 0xDEADBEEF;
    assert!(bad_magic.validate().is_err());

    let mut bad_pos = header;
    bad_pos.write_pos = ArenaOffset::new(2048);
    assert!(bad_pos.validate().is_err());
}

#[test]
fn header_size_is_128() {
    assert_eq!(HEADER_SIZE, 128);
}

#[test]
fn header_from_short_buffer_fails() {
    assert!(ArenaHeader::from_bytes(&[0u8; 64]).is_err());
}

#[test]
fn header_validation_messages() {
    let header = ArenaHeader::new(TraceId::from_u128(7), 1024);
    let mut bad_version = header;
    bad_version.version = 2;
    assert_eq!(bad_version.validate(), Err("Unsupported arena version"));
    let mut bad_magic = header;
    bad_magic.magic = 1;
    assert_eq!(bad_magic.validate(), Err("Invalid magic number"));
    assert_eq!(header.available_space(), 1024 - header.write_pos.as_u64());
}

use xerv_core::arena::writer::{read_bytes_at, write_bytes_at, ArenaConfig, DEFAULT_ARENA_SIZE, MAX_ARENA_SIZE};
use xerv_core::error::XervError;
use xerv_core::types::RelPtr;

fn fresh_arena(capacity: u64) -> (Vec<u8>, u64) {
    (vec![0u8; capacity as usize], HEADER_SIZE as u64)
}

#[test]
fn arena_config_builders() {
    let config = ArenaConfig::default();
    assert_eq!(config.capacity, DEFAULT_ARENA_SIZE);
    assert_eq!(config.directory, "/tmp/xerv");
    assert!(!config.sync_on_write);
    let config = config.with_capacity(1024 * 1024).with_directory("/data/arenas").with_sync(true);
    assert_eq!(config.capacity, 1024 * 1024);
    assert_eq!(config.directory, "/data/arenas");
    assert!(config.sync_on_write);
    assert_eq!(ArenaConfig::default().with_capacity(u64::MAX).capacity, MAX_ARENA_SIZE);
}

#[test]
fn arena_write_and_read_bytes() {
    let (mut buffer, mut pos) = fresh_arena(1024 * 1024);
    let capacity = buffer.len() as u64;

    let data = b"Hello, XERV!";
    let ptr: RelPtr<()> = write_bytes_at(&mut buffer, &mut pos, capacity, data).unwrap();
    assert!(!ptr.is_null());
    assert_eq!(ptr.offset().as_u64(), HEADER_SIZE as u64);
    assert_eq!(pos, HEADER_SIZE as u64 + 16);

    let read_back = read_bytes_at(&buffer, pos, ptr.offset(), ptr.size() as usize).unwrap();
    assert_eq!(&read_back, data);
    assert_eq!(&buffer[HEADER_SIZE + 12..HEADER_SIZE + 16], &[0, 0, 0, 0]);
}

#[test]
fn arena_multiple_writes() {
    let (mut buffer, mut pos) = fresh_arena(1024 * 1024);
    let capacity = buffer.len() as u64;

    let mut ptrs = Vec::new();
    for i in 0..100 {
        let data = format!("item_{}", i);
        let ptr: RelPtr<()> = write_bytes_at(&mut buffer, &mut pos, capacity, data.as_bytes()).unwrap();
        ptrs.push((ptr, data));
    }

    for (ptr, expected) in &ptrs {
        let read_back = read_bytes_at(&buffer, pos, ptr.offset(), ptr.size() as usize).unwrap();
        assert_eq!(String::from_utf8(read_back).unwrap(), *expected);
    }
}

#[test]
fn arena_capacity_check() {
    let (mut buffer, mut pos) = fresh_arena(256);
    let capacity = buffer.len() as u64;

    let data = "a".repeat(100);

    let mut writes = 0;
    while write_bytes_at::<()>(&mut buffer, &mut pos, capacity, data.as_bytes()).is_ok() {
        writes += 1;
        if writes > 10 {
            break;
        }
    }

    assert!(writes < 10);
    let err = write_bytes_at::<()>(&mut buffer, &mut pos, capacity, data.as_bytes()).unwrap_err();
    assert!(matches!(err, XervError::ArenaCapacity { requested: 104, available: 24 }));
}

#[test]
fn arena_reader_writer() {
    let (mut buffer, mut pos) = fresh_arena(1024 * 1024);
    let capacity = buffer.len() as u64;

    let data = b"shared data";
    let ptr: RelPtr<()> = write_bytes_at(&mut buffer, &mut pos, capacity, data).unwrap();

    let read_back = read_bytes_at(&buffer, pos, ptr.offset(), ptr.size() as usize).unwrap();
    assert_eq!(&read_back, data);
}

#[test]
fn arena_read_past_write_position_fails() {
    let (buffer, pos) = fresh_arena(1024);
    match read_bytes_at(&buffer, pos, ArenaOffset::new(120), 16) {
        Err(XervError::ArenaInvalidOffset { offset, cause }) => {
            assert_eq!(offset.as_u64(), 120);
            assert_eq!(cause, "Offset 120 + size 16 exceeds write position 128");
        },
        _ => panic!("expected an invalid offset"),
    }
    assert_eq!(read_bytes_at(&buffer, pos, ArenaOffset::new(120), 8).unwrap().len(), 8);
    assert!(RelPtr::<()>::null().is_null());
}

#[test]
fn packing_check_matches_planning() {
    let mut tracker = AllocationTracker::new();
    tracker.record_allocation(ArenaOffset::new(0x100), 100);
    tracker.record_allocation(ArenaOffset::new(0x200), 100);
    tracker.mark_dead(ArenaOffset::new(0x100));
    assert!(can_pack(&tracker, ArenaOffset::new(0x80)));
    let plan = xerv_core::arena::compaction::plan_compaction(&tracker, ArenaOffset::new(0x80));
    assert_eq!(plan.moves().len(), 1);
    assert_eq!(plan.moves()[0].1, ArenaOffset::new(0x80));
    assert_eq!(plan.new_write_pos(), ArenaOffset::new(0x80 + 104));

    assert!(!can_pack(&tracker, ArenaOffset::new(u64::MAX - 50)));
    let mut huge = AllocationTracker::new();
    huge.record_allocation(ArenaOffset::new(0), u32::MAX);
    assert!(!can_pack(&huge, ArenaOffset::new(0)));
    assert!(can_pack(&AllocationTracker::new(), ArenaOffset::new(u64::MAX)));
}

#[test]
fn rebuild_counts_each_distinct_offset() {
    let mut tracker = AllocationTracker::new();
    tracker.record_allocation(ArenaOffset::new(0x900), 8);
    let mut dead = AllocationEntry::new(ArenaOffset::new(0x300), 16, 1);
    dead.mark_dead();
    tracker.rebuild(vec![
        AllocationEntry::new(ArenaOffset::new(0x200), 8, 1),
        AllocationEntry::new(ArenaOffset::new(0x100), 32, 1),
        dead,
    ]);
    assert_eq!(tracker.allocation_count(), 3);
    assert_eq!(tracker.total_allocated(), 56);
    assert_eq!(tracker.total_dead(), 16);
    assert!(!tracker.is_live(ArenaOffset::new(0x900)));
    let live = tracker.get_live_allocations();
    assert_eq!(live.len(), 2);
    assert!(live[0].offset.as_u64() < live[1].offset.as_u64());
}

#[test]
fn compaction_keeps_blocks_that_move_up() {
    let mut tracker = AllocationTracker::new();
    let mut buffer = vec![0u8; 0x200];
    for (i, b) in buffer.iter_mut().enumerate() {
        *b = (i % 251) as u8;
    }
    let before = buffer.clone();
    tracker.record_allocation(ArenaOffset::new(0x100), 1);
    tracker.record_allocation(ArenaOffset::new(0x101), 8);
    tracker.record_allocation(ArenaOffset::new(0x109), 8);

    let result = compact(&mut tracker, &mut buffer, ArenaOffset::new(0x100)).unwrap();

    assert_eq!(result.allocations_moved, 2);
    assert_eq!(
        result.offset_map,
        vec![
            (ArenaOffset::new(0x109), ArenaOffset::new(0x110)),
            (ArenaOffset::new(0x101), ArenaOffset::new(0x108)),
        ]
    );
    assert_eq!(buffer[0x100], before[0x100]);
    assert_eq!(&buffer[0x108..0x110], &before[0x101..0x109]);
    assert_eq!(&buffer[0x110..0x118], &before[0x109..0x111]);
    assert!(tracker.is_live(ArenaOffset::new(0x108)));
    assert!(tracker.is_live(ArenaOffset::new(0x110)));
}
