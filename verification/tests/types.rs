use xerv_core::types::{ArenaOffset, NodeId, PipelineId, TraceId};

#[test]
fn trace_id_text_roundtrip() {
    let id = TraceId::from_u128(0x0123_4567_89ab_cdef_0123_4567_89ab_cdef);
    let text = id.to_text();
    assert_eq!(text, "01234567-89ab-cdef-0123-456789abcdef");
    assert_eq!(TraceId::parse(&text), Some(id));
    assert_eq!(TraceId::parse("not-a-uuid"), None);
    assert_ne!(TraceId::new(), TraceId::new());
}

#[test]
fn ids_and_offsets() {
    assert_eq!(ArenaOffset::new(8).add(8).as_u64(), 16);
    assert_eq!(NodeId::new(3).as_u32(), 3);
    let p = PipelineId::new("orders", 2);
    assert_eq!(p.name(), "orders");
    assert!(p.same_as(&p.duplicate()));
    assert!(!p.same_as(&PipelineId::new("orders", 3)));
}

#[test]
fn new_trace_ids_are_version_four() {
    for _ in 0..16 {
        let v = TraceId::new().as_u128();
        assert_eq!((v >> 76) & 0xf, 4);
        assert_eq!((v >> 62) & 0x3, 2);
    }
}
