//! Retained render caches.
//!
//! A [`RenderCache`] collects the primitives of one frame for one of the two
//! drawing back ends. It remembers whether its contents changed since they were
//! last drawn, so a renderer can skip re-tessellating an unchanged plot.
//! Primitive payloads (`P`) and the quality setting (`Q`) are opaque here.

use vstd::prelude::*;

verus! {

/// The drawing back end a renderer prefers.
#[derive(Debug, Clone, Copy, PartialEq, Eq, Structural)]
pub enum Backend {
    /// Triangle meshes tessellated by the crate itself.
    Mesh,
    /// Vector paths handed to the renderer.
    Path,
}

/// Cache state of the mesh back end.
pub struct MeshCache<P, Q> {
    primitives: Vec<P>,
    quality: Option<Q>,
    stale: bool,
}

/// Cache state of the path back end.
pub struct PathCache<P> {
    primitives: Vec<P>,
    stale: bool,
}

/// What a cache holds, as seen by its users.
pub struct CacheState<P, Q> {
    /// Which back end the cache serves.
    pub backend: Backend,
    /// The primitives collected since the last clear, in insertion order.
    pub primitives: Seq<P>,
    /// The quality last set (only the mesh back end keeps one).
    pub quality: Option<Q>,
    /// Whether the contents changed since they were last drawn.
    pub stale: bool,
}

/// The state after collecting `primitive`: it is appended and the cache must be
/// drawn again.
pub open spec fn after_add<P, Q>(s: CacheState<P, Q>, primitive: P) -> CacheState<P, Q> {
    CacheState { primitives: s.primitives.push(primitive), stale: true, ..s }
}

/// The state after a clear: no primitives, and the cache must be drawn again.
pub open spec fn after_clear<P, Q>(s: CacheState<P, Q>) -> CacheState<P, Q> {
    CacheState { primitives: Seq::empty(), stale: true, ..s }
}

/// The state after the contents were drawn.
pub open spec fn after_draw<P, Q>(s: CacheState<P, Q>) -> CacheState<P, Q> {
    CacheState { stale: false, ..s }
}

/// The state after setting the quality: only a mesh cache keeps it.
pub open spec fn after_quality<P, Q>(s: CacheState<P, Q>, quality: Q) -> CacheState<P, Q> {
    if s.backend == Backend::Mesh {
        CacheState { quality: Some(quality), ..s }
    } else {
        s
    }
}

/// The state of a freshly created cache for `backend`.
pub open spec fn fresh_state<P, Q>(backend: Backend) -> CacheState<P, Q> {
    CacheState { backend, primitives: Seq::empty(), quality: None, stale: true }
}

impl<P, Q> MeshCache<P, Q> {
    pub closed spec fn state(&self) -> CacheState<P, Q> {
        CacheState {
            backend: Backend::Mesh,
            primitives: self.primitives@,
            quality: self.quality,
            stale: self.stale,
        }
    }

    /// An empty cache that has never been drawn.
    pub fn new() -> (c: Self)
        ensures
            c.state() == fresh_state::<P, Q>(Backend::Mesh),
    {
        MeshCache { primitives: Vec::new(), quality: None, stale: true }
    }
}

impl<P> PathCache<P> {
    pub closed spec fn primitives_view(&self) -> Seq<P> {
        self.primitives@
    }

    pub closed spec fn is_stale(&self) -> bool {
        self.stale
    }

    /// An empty cache that has never been drawn.
    pub fn new() -> (c: Self)
        ensures
            c.primitives_view() == Seq::<P>::empty(),
            c.is_stale(),
    {
        PathCache { primitives: Vec::new(), stale: true }
    }
}

/// A render cache for either back end.
pub enum RenderCache<P, Q> {
    Mesh(Box<MeshCache<P, Q>>),
    Path(Box<PathCache<P>>),
}

impl<P, Q> RenderCache<P, Q> {
    /// The abstract contents of the cache.
    pub closed spec fn state(&self) -> CacheState<P, Q> {
        match self {
            RenderCache::Mesh(c) => c.state(),
            RenderCache::Path(c) => CacheState {
                backend: Backend::Path,
                primitives: c.primitives@,
                quality: None,
                stale: c.stale,
            },
        }
    }

    /// An empty cache for the mesh back end; it needs drawing.
    pub fn new_mesh() -> (c: Self)
        ensures
            c.state() == fresh_state::<P, Q>(Backend::Mesh),
    {
        RenderCache::Mesh(Box::new(MeshCache::new()))
    }

    /// An empty cache for the path back end; it needs drawing.
    pub fn new_path() -> (c: Self)
        ensures
            c.state() == fresh_state::<P, Q>(Backend::Path),
    {
        RenderCache::Path(Box::new(PathCache::new()))
    }

    /// The back end this cache serves.
    pub fn backend(&self) -> (b: Backend)
        ensures
            b == self.state().backend,
    {
        match self {
            RenderCache::Mesh(_) => Backend::Mesh,
            RenderCache::Path(_) => Backend::Path,
        }
    }

    /// Drops every collected primitive; the cache must be drawn again.
    pub fn clear(&mut self)
        ensures
            final(self).state() == after_clear(old(self).state()),
    {
        match self {
            RenderCache::Path(cache) => {
                cache.primitives.clear();
                cache.stale = true;
            },
            RenderCache::Mesh(cache) => {
                cache.primitives.clear();
                cache.stale = true;
            },
        }
    }

    /// Whether the contents changed since they were last drawn.
    pub fn needs_redraw(&self) -> (r: bool)
        ensures
            r == self.state().stale,
    {
        match self {
            RenderCache::Mesh(cache) => cache.stale,
            RenderCache::Path(cache) => cache.stale,
        }
    }

    /// Collects one more primitive; the cache must be drawn again.
    pub fn add_primitive(&mut self, primitive: P)
        ensures
            final(self).state() == after_add(old(self).state(), primitive),
    {
        match self {
            RenderCache::Mesh(cache) => {
                cache.primitives.push(primitive);
                cache.stale = true;
            },
            RenderCache::Path(cache) => {
                cache.primitives.push(primitive);
                cache.stale = true;
            },
        }
    }

    /// Sets the tessellation quality. Only the mesh back end keeps a quality; the
    /// path back end leaves its state unchanged.
    pub fn set_quality(&mut self, quality: Q)
        ensures
            final(self).state() == after_quality(old(self).state(), quality),
    {
        match self {
            RenderCache::Mesh(cache) => {
                cache.quality = Some(quality);
            },
            RenderCache::Path(_cache) => {},
        }
    }

    /// The collected primitives, in the order they were added.
    pub fn primitives(&self) -> (r: &Vec<P>)
        ensures
            r@ == self.state().primitives,
    {
        match self {
            RenderCache::Mesh(cache) => &cache.primitives,
            RenderCache::Path(cache) => &cache.primitives,
        }
    }

    /// The quality last set on a mesh cache.
    pub fn quality(&self) -> (r: Option<&Q>)
        ensures
            r matches Some(q) ==> self.state().quality == Some(*q),
            r is None ==> self.state().quality is None,
    {
        match self {
            RenderCache::Mesh(cache) => match &cache.quality {
                Some(q) => Some(q),
                None => None,
            },
            RenderCache::Path(_) => None,
        }
    }

    /// Records that the current contents have been drawn.
    pub fn mark_drawn(&mut self)
        ensures
            final(self).state() == after_draw(old(self).state()),
    {
        match self {
            RenderCache::Mesh(cache) => {
                cache.stale = false;
            },
            RenderCache::Path(cache) => {
                cache.stale = false;
            },
        }
    }
}


/// Laws of the cache life cycle: clearing forgets everything collected since the
/// last clear; every change requires a redraw and drawing changes nothing but
/// that; no operation changes the back end.
pub proof fn lemma_cache_life_cycle<P, Q>(s: CacheState<P, Q>, primitive: P, quality: Q)
    ensures
        after_clear(after_add(s, primitive)) == after_clear(s),
        after_clear(after_clear(s)) == after_clear(s),
        after_add(s, primitive).stale,
        after_add(after_draw(s), primitive).stale,
        after_draw(after_add(s, primitive)).primitives == s.primitives.push(primitive),
        !after_draw(s).stale && after_draw(s).primitives == s.primitives,
        after_add(s, primitive).backend == s.backend,
        after_clear(s).backend == s.backend,
        after_draw(s).backend == s.backend,
        after_quality(s, quality).backend == s.backend,
        after_quality(s, quality).primitives == s.primitives,
        after_quality(s, quality).stale == s.stale,
{
    assert(after_clear(after_add(s, primitive)) == after_clear(s));
}

} // verus!
