use vstd::prelude::*;

use crate::circular_buffer::{pushed_all, CircularBuffer};

verus! {

pub const DEFAULT_WINDOW_TITLE: &'static str = "dodge left dodge right";

pub const DEFAULT_WIDTH: usize = 800;

pub const DEFAULT_HEIGHT: usize = 600;

/// The number of samples the capture side buffers before handing a block on.
pub const BUFFER_SIZE: usize = 8192;

/// The number of samples handed to the analyzer at a time.
pub const BLOCK_SIZE: usize = 1024;

/// Pushes a block of captured samples onto the staging buffer; once it holds at least
/// `block` samples, removes the oldest `block` of them and returns them.
pub fn collect_block<T: Copy + Default>(
    staging: &mut CircularBuffer<T>,
    input: &[T],
    block: usize,
) -> (r: Option<Vec<T>>)
    requires
        old(staging).wf(),
    ensures
        final(staging).wf(),
        final(staging).spec_capacity() == old(staging).spec_capacity(),
        ({
            let s = pushed_all(old(staging)@, old(staging).spec_capacity(), input@);
            if s.len() >= block {
                r matches Some(v) && v@ == s.take(block as int) && final(staging)@ == s.skip(
                    block as int,
                )
            } else {
                r is None && final(staging)@ == s
            }
        }),
{
    staging.extend_from_slice(input);
    if staging.len() >= block {
        let ghost s = staging@;
        let v = staging.drain(0..block);
        assert(staging@ =~= s.skip(block as int));
        Some(v)
    } else {
        None
    }
}

/// The window settings of the application; each one left unset takes its default.
pub struct AppBuilder {
    window_title: Option<String>,
    window_width: Option<usize>,
    window_height: Option<usize>,
    vsync_enabled: Option<bool>,
}

impl AppBuilder {
    pub closed spec fn spec_title(&self) -> Option<Seq<char>> {
        match self.window_title {
            Some(t) => Some(t@),
            None => None,
        }
    }

    pub closed spec fn spec_width(&self) -> Option<usize> {
        self.window_width
    }

    pub closed spec fn spec_height(&self) -> Option<usize> {
        self.window_height
    }

    pub closed spec fn spec_vsync(&self) -> Option<bool> {
        self.vsync_enabled
    }

    pub fn window_title(self, title: &str) -> (r: Self)
        ensures
            r.spec_title() == Some(title@),
            r.spec_width() == self.spec_width(),
            r.spec_height() == self.spec_height(),
            r.spec_vsync() == self.spec_vsync(),
    {
        AppBuilder { window_title: Some(title.to_owned()), ..self }
    }

    pub fn window_width(self, width: usize) -> (r: Self)
        ensures
            r.spec_title() == self.spec_title(),
            r.spec_width() == Some(width),
            r.spec_height() == self.spec_height(),
            r.spec_vsync() == self.spec_vsync(),
    {
        AppBuilder { window_width: Some(width), ..self }
    }

    pub fn window_height(self, height: usize) -> (r: Self)
        ensures
            r.spec_title() == self.spec_title(),
            r.spec_width() == self.spec_width(),
            r.spec_height() == Some(height),
            r.spec_vsync() == self.spec_vsync(),
    {
        AppBuilder { window_height: Some(height), ..self }
    }

    pub fn vsync_enabled(self, enabled: bool) -> (r: Self)
        ensures
            r.spec_title() == self.spec_title(),
            r.spec_width() == self.spec_width(),
            r.spec_height() == self.spec_height(),
            r.spec_vsync() == Some(enabled),
    {
        AppBuilder { vsync_enabled: Some(enabled), ..self }
    }

    /// The window title, or [`DEFAULT_WINDOW_TITLE`] when none was set.
    pub fn title(&self) -> (r: String)
        ensures
            r@ == match self.spec_title() {
                Some(t) => t,
                None => DEFAULT_WINDOW_TITLE@,
            },
    {
        match &self.window_title {
            Some(t) => t.clone(),
            None => DEFAULT_WINDOW_TITLE.to_owned(),
        }
    }

    /// The window width, or [`DEFAULT_WIDTH`] when none was set.
    pub fn width(&self) -> (r: usize)
        ensures
            r == match self.spec_width() {
                Some(w) => w,
                None => DEFAULT_WIDTH,
            },
    {
        match self.window_width {
            Some(w) => w,
            None => DEFAULT_WIDTH,
        }
    }

    /// The window height, or [`DEFAULT_HEIGHT`] when none was set.
    pub fn height(&self) -> (r: usize)
        ensures
            r == match self.spec_height() {
                Some(h) => h,
                None => DEFAULT_HEIGHT,
            },
    {
        match self.window_height {
            Some(h) => h,
            None => DEFAULT_HEIGHT,
        }
    }

    /// Whether vsync is on; it is unless switched off.
    pub fn vsync(&self) -> (r: bool)
        ensures
            r == match self.spec_vsync() {
                Some(v) => v,
                None => true,
            },
    {
        match self.vsync_enabled {
            Some(v) => v,
            None => true,
        }
    }
}

impl Default for AppBuilder {
    fn default() -> (r: Self)
        ensures
            r.spec_title() is None,
            r.spec_width() is None,
            r.spec_height() is None,
            r.spec_vsync() is None,
    {
        AppBuilder { window_title: None, window_width: None, window_height: None, vsync_enabled: None }
    }
}

} // verus!
