//! Per-chart memory kept between frames.

use vstd::prelude::*;

use crate::cache::{after_quality, fresh_state, Backend, RenderCache};

verus! {

/// Internal chart memory: the render cache, created lazily on first draw.
pub struct Memory<P, Q> {
    pub buffer: Option<RenderCache<P, Q>>,
}

impl<P, Q> Memory<P, Q> {
    /// A memory with no render cache yet.
    pub fn new() -> (m: Self)
        ensures
            m.buffer is None,
    {
        Memory { buffer: None }
    }

    /// Makes sure the render cache exists and carries `quality`.
    ///
    /// An existing cache keeps its back end and contents and only gets the new
    /// quality; otherwise a fresh cache for `backend` (the renderer's preferred
    /// back end) is created with that quality.
    pub fn make_sure_buffer_is_initialized(&mut self, backend: Backend, quality: Q)
        ensures
            final(self).buffer is Some,
            old(self).buffer matches Some(b) ==> final(self).buffer.unwrap().state() == after_quality(
                b.state(),
                quality,
            ),
            old(self).buffer is None ==> final(self).buffer.unwrap().state() == after_quality(
                fresh_state::<P, Q>(backend),
                quality,
            ),
    {
        match &mut self.buffer {
            Some(buffer) => {
                buffer.set_quality(quality);
            },
            None => {
                let mut buffer = match backend {
                    Backend::Mesh => RenderCache::new_mesh(),
                    Backend::Path => RenderCache::new_path(),
                };
                buffer.set_quality(quality);
                self.buffer = Some(buffer);
            },
        }
    }

    /// Gives mutable access to the render cache, which must have been created.
    pub fn get_buffer_mut(&mut self) -> (b: &mut RenderCache<P, Q>)
        requires
            old(self).buffer is Some,
        ensures
            *b == old(self).buffer.unwrap(),
            final(self).buffer == Some(*final(b)),
    {
        self.buffer.as_mut().unwrap()
    }
}

} // verus!
