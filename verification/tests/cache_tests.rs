use iced_aksel::cache::{Backend, RenderCache};
use iced_aksel::memory::Memory;

#[test]
fn new_caches_are_empty_and_need_drawing() {
    let mesh: RenderCache<u32, u8> = RenderCache::new_mesh();
    let path: RenderCache<u32, u8> = RenderCache::new_path();
    assert!(mesh.needs_redraw());
    assert!(path.needs_redraw());
    assert_eq!(mesh.backend(), Backend::Mesh);
    assert_eq!(path.backend(), Backend::Path);
    assert!(mesh.primitives().is_empty());
    assert!(path.primitives().is_empty());
}

#[test]
fn adding_after_drawing_requires_a_redraw() {
    let mut cache: RenderCache<u32, u8> = RenderCache::new_mesh();
    cache.add_primitive(1);
    cache.add_primitive(2);
    cache.mark_drawn();
    assert!(!cache.needs_redraw());
    assert_eq!(cache.primitives(), &vec![1, 2]);
    cache.add_primitive(3);
    assert!(cache.needs_redraw());
    assert_eq!(cache.primitives(), &vec![1, 2, 3]);
}

#[test]
fn clear_forgets_primitives_and_requires_a_redraw() {
    let mut cache: RenderCache<u32, u8> = RenderCache::new_path();
    cache.add_primitive(7);
    cache.mark_drawn();
    cache.clear();
    assert!(cache.needs_redraw());
    assert!(cache.primitives().is_empty());
    assert_eq!(cache.backend(), Backend::Path);
}

#[test]
fn quality_is_kept_by_mesh_caches_only() {
    let mut mesh: RenderCache<u32, u8> = RenderCache::new_mesh();
    let mut path: RenderCache<u32, u8> = RenderCache::new_path();
    assert_eq!(mesh.quality(), None);
    mesh.set_quality(3);
    path.set_quality(3);
    assert_eq!(mesh.quality(), Some(&3));
    assert_eq!(path.quality(), None);
}

#[test]
fn memory_creates_the_preferred_backend_once() {
    let mut memory: Memory<u32, u8> = Memory::new();
    assert!(memory.buffer.is_none());
    memory.make_sure_buffer_is_initialized(Backend::Path, 1);
    assert_eq!(memory.get_buffer_mut().backend(), Backend::Path);
    memory.get_buffer_mut().add_primitive(42);
    memory.get_buffer_mut().mark_drawn();
    // A second call keeps the existing cache and its contents.
    memory.make_sure_buffer_is_initialized(Backend::Mesh, 2);
    let buffer = memory.get_buffer_mut();
    assert_eq!(buffer.backend(), Backend::Path);
    assert_eq!(buffer.primitives(), &vec![42]);
    assert!(!buffer.needs_redraw());
}

#[test]
fn memory_mesh_cache_takes_the_quality() {
    let mut memory: Memory<u32, u8> = Memory::new();
    memory.make_sure_buffer_is_initialized(Backend::Mesh, 1);
    assert_eq!(memory.get_buffer_mut().quality(), Some(&1));
    memory.make_sure_buffer_is_initialized(Backend::Mesh, 2);
    assert_eq!(memory.get_buffer_mut().quality(), Some(&2));
}
