use vstd::prelude::*;

use crate::geom::Vec2;

verus! {

/// Depth comparison that lets a fragment through.
#[derive(Debug, Clone, Copy, PartialEq, Eq, Hash)]
pub enum DepthFunc {
    Less,
    LessOrEqual,
    Greater,
}

impl Default for DepthFunc {
    fn default() -> (r: DepthFunc)
        ensures
            r == DepthFunc::Less,
    {
        DepthFunc::Less
    }
}

/// How a fragment is blended with what is already drawn.
#[derive(Debug, Clone, Copy, PartialEq, Eq, Hash)]
pub enum BlendMode {
    Alpha,
}

impl Default for BlendMode {
    fn default() -> (r: BlendMode)
        ensures
            r == BlendMode::Alpha,
    {
        BlendMode::Alpha
    }
}

/// Which faces are culled.
#[derive(Debug, Clone, Copy, PartialEq, Eq, Hash)]
pub enum CullFace {
    Back,
    Front,
}

/// An axis-aligned rectangle, minimum corner included.
#[derive(Debug, Clone, Copy, PartialEq, Eq, Hash)]
pub struct Aabb {
    pub x_min: usize,
    pub y_min: usize,
    pub x_max: usize,
    pub y_max: usize,
}

impl Aabb {
    /// Well formed: the minimum corner is below the maximum one.
    pub open spec fn wf(self) -> bool {
        self.x_min <= self.x_max && self.y_min <= self.y_max
    }

    /// `x_max - x_min`.
    pub fn width(&self) -> (r: usize)
        requires
            self.wf(),
        ensures
            r == self.x_max - self.x_min,
    {
        self.x_max - self.x_min
    }

    /// `y_max - y_min`.
    pub fn height(&self) -> (r: usize)
        requires
            self.wf(),
        ensures
            r == self.y_max - self.y_min,
    {
        self.y_max - self.y_min
    }
}

/// Per-draw render state.
#[derive(Debug, Clone, PartialEq, Eq)]
pub struct DrawParameters {
    pub depth_func: Option<DepthFunc>,
    pub blend_mode: Option<BlendMode>,
    pub cull_face: Option<CullFace>,
    pub viewport: Option<Aabb>,
    pub write_depth: bool,
}

impl Default for DrawParameters {
    fn default() -> (r: Self)
        ensures
            r.depth_func is None,
            r.blend_mode is None,
            r.cull_face is None,
            r.viewport is None,
            r.write_depth,
    {
        DrawParameters {
            depth_func: None,
            blend_mode: None,
            cull_face: None,
            viewport: None,
            write_depth: true,
        }
    }
}

/// Depth test of the graphics context: a comparison, or always passing.
#[derive(Debug, Clone, Copy, PartialEq, Eq, Hash)]
pub enum DepthTest {
    Always,
    Less,
    LessOrEqual,
    Greater,
}

/// The complete graphics-context state that a set of draw parameters asks
/// for; the viewport is `(x, y, width, height)`.
#[derive(Debug, Clone, Copy, PartialEq, Eq, Hash)]
pub struct GlSettings {
    pub depth_test: DepthTest,
    pub blend: Option<BlendMode>,
    pub cull: Option<CullFace>,
    pub viewport: (usize, usize, usize, usize),
    pub depth_mask: bool,
}

/// The depth test that an optional depth function selects.
pub open spec fn depth_test_of(f: Option<DepthFunc>) -> DepthTest {
    match f {
        None => DepthTest::Always,
        Some(DepthFunc::Less) => DepthTest::Less,
        Some(DepthFunc::LessOrEqual) => DepthTest::LessOrEqual,
        Some(DepthFunc::Greater) => DepthTest::Greater,
    }
}

impl DrawParameters {
    /// The context state to apply: no depth function tests always, no
    /// viewport covers the whole framebuffer.
    pub fn settings(&self, framebuffer_size: Vec2<usize>) -> (r: GlSettings)
        requires
            self.viewport matches Some(v) ==> v.wf(),
        ensures
            r.depth_test == depth_test_of(self.depth_func),
            r.blend == self.blend_mode,
            r.cull == self.cull_face,
            r.viewport == match self.viewport {
                Some(v) => (v.x_min, v.y_min, (v.x_max - v.x_min) as usize, (v.y_max - v.y_min) as usize),
                None => (0usize, 0usize, framebuffer_size.x, framebuffer_size.y),
            },
            r.depth_mask == self.write_depth,
    {
        let depth_test = match self.depth_func {
            None => DepthTest::Always,
            Some(DepthFunc::Less) => DepthTest::Less,
            Some(DepthFunc::LessOrEqual) => DepthTest::LessOrEqual,
            Some(DepthFunc::Greater) => DepthTest::Greater,
        };
        let viewport = match self.viewport {
            Some(v) => (v.x_min, v.y_min, v.width(), v.height()),
            None => (0, 0, framebuffer_size.x, framebuffer_size.y),
        };
        GlSettings {
            depth_test,
            blend: self.blend_mode,
            cull: self.cull_face,
            viewport,
            depth_mask: self.write_depth,
        }
    }
}

} // verus!
