//! Uniform buffers, laid out by the std140 rules.

use crate::gl_wrapper::{BufferTarget, BufferUpdateFrequency, GlCommand, GlQueue};
use vstd::prelude::*;

verus! {

/// The shader types that a uniform block is made of.
#[derive(Clone, Copy, Debug, PartialEq, Eq, Structural)]
pub enum GlslTypes {
    Float,
    Int,
    Vec2,
    Vec3,
    Vec4,
    Mat4,
}

/// Number of bytes that a value of the type takes in a std140 block: a
/// scalar takes 4, a vector of two 8, vectors of three and of four 16, and a
/// 4x4 matrix as much as four vectors of four.
pub open spec fn std140_size(ty: GlslTypes) -> nat {
    match ty {
        GlslTypes::Float => 4,
        GlslTypes::Int => 4,
        GlslTypes::Vec2 => 8,
        GlslTypes::Vec3 => 16,
        GlslTypes::Vec4 => 16,
        GlslTypes::Mat4 => 64,
    }
}

/// Number of bytes that the first `n` types of `layout` take in a std140
/// block.
pub open spec fn std140_layout_size(layout: Seq<GlslTypes>, n: int) -> nat
    decreases n,
{
    if n <= 0 {
        0
    } else {
        std140_layout_size(layout, n - 1) + std140_size(layout[n - 1])
    }
}

proof fn lemma_layout_size_monotonic(layout: Seq<GlslTypes>, i: int, j: int)
    requires
        0 <= i <= j <= layout.len(),
    ensures
        std140_layout_size(layout, i) <= std140_layout_size(layout, j),
    decreases j - i,
{
    if i < j {
        lemma_layout_size_monotonic(layout, i, j - 1);
    }
}

/// Things whose size in a std140 block can be worked out.
pub trait ComputeStd140LayoutSize {
    /// The size in bytes.
    spec fn spec_std140_layout_size(&self) -> nat;

    /// The size in bytes. It has to fit the result type.
    fn compute_std140_layout_size(&self) -> (size: u32)
        requires
            self.spec_std140_layout_size() <= u32::MAX,
        ensures
            size == self.spec_std140_layout_size(),
    ;
}

impl ComputeStd140LayoutSize for GlslTypes {
    open spec fn spec_std140_layout_size(&self) -> nat {
        std140_size(*self)
    }

    fn compute_std140_layout_size(&self) -> (size: u32) {
        let n: u32 = 4;
        match self {
            GlslTypes::Float => n,
            GlslTypes::Int => n,
            GlslTypes::Vec2 => 2 * n,
            GlslTypes::Vec3 => 4 * n,
            GlslTypes::Vec4 => 4 * n,
            GlslTypes::Mat4 => 4 * (4 * n),
        }
    }
}

impl ComputeStd140LayoutSize for Vec<GlslTypes> {
    open spec fn spec_std140_layout_size(&self) -> nat {
        std140_layout_size(self@, self@.len() as int)
    }

    fn compute_std140_layout_size(&self) -> (size: u32) {
        let mut size: u32 = 0;
        let mut i: usize = 0;
        while i < self.len()
            invariant
                0 <= i <= self@.len(),
                size == std140_layout_size(self@, i as int),
                std140_layout_size(self@, self@.len() as int) <= u32::MAX,
            decreases self@.len() - i,
        {
            proof {
                lemma_layout_size_monotonic(self@, i as int + 1, self@.len() as int);
            }
            size = size + self[i].compute_std140_layout_size();
            i += 1;
        }
        size
    }
}

/// A uniform buffer whose storage has the given layout.
#[derive(Debug)]
pub struct UBO {
    pub id: u32,
    pub layout: Vec<GlslTypes>,
}

/// Values that can be written to a uniform buffer of their layout.
pub trait Std140 {
    /// The layout of the value.
    spec fn spec_std140_layout(&self) -> Seq<GlslTypes>;

    /// The commands that write the value to the buffer `buffer`.
    spec fn spec_writes(&self, buffer: u32) -> Seq<GlCommand>;

    /// The layout of the value.
    fn get_std140_layout(&self) -> (layout: Vec<GlslTypes>)
        ensures
            layout@ == self.spec_std140_layout(),
    ;

    /// Writes the value to `ubo`, whose layout is that of the value.
    fn write_to_ubo(&self, ubo: &UBO, gl: &mut GlQueue)
        requires
            ubo.layout@ == self.spec_std140_layout(),
        ensures
            final(gl).last_name() == old(gl).last_name(),
            final(gl)@ == old(gl)@ + self.spec_writes(ubo.id),
    ;
}

impl UBO {
    /// The commands that create the uniform buffer `id` with storage of
    /// `bytes` bytes.
    pub open spec fn creation(id: u32, bytes: u32, usage: BufferUpdateFrequency) -> Seq<
        GlCommand,
    > {
        seq![
            GlCommand::CreateBuffer { buffer: id },
            GlCommand::UniformStorage { buffer: id, bytes, usage },
        ]
    }

    /// A uniform buffer under a fresh name with storage for one value of
    /// the layout.
    pub fn new(gl: &mut GlQueue, layout: Vec<GlslTypes>, update_frequency: BufferUpdateFrequency) -> (ubo:
        UBO)
        requires
            old(gl).has_names(1),
            std140_layout_size(layout@, layout@.len() as int) <= u32::MAX,
        ensures
            ubo.id == old(gl).last_name() + 1,
            ubo.layout == layout,
            final(gl).last_name() == ubo.id,
            final(gl)@ == old(gl)@ + Self::creation(
                ubo.id,
                std140_layout_size(layout@, layout@.len() as int) as u32,
                update_frequency,
            ),
    {
        let id = gl.fresh_name();
        let bytes = layout.compute_std140_layout_size();
        gl.push(GlCommand::CreateBuffer { buffer: id });
        gl.push(GlCommand::UniformStorage { buffer: id, bytes, usage: update_frequency });
        proof {
            assert(gl@ =~= old(gl)@ + Self::creation(id, bytes, update_frequency));
        }
        UBO { id, layout }
    }

    /// Whether a value of the layout `layout` can be written to the buffer:
    /// whether the two layouts are the same.
    pub fn is_compatible(&self, layout: &Vec<GlslTypes>) -> (compatible: bool)
        ensures
            compatible == (self.layout@ == layout@),
    {
        if self.layout.len() != layout.len() {
            return false;
        }
        let mut i: usize = 0;
        while i < layout.len()
            invariant
                0 <= i <= layout@.len(),
                self.layout@.len() == layout@.len(),
                forall|j: int| 0 <= j < i ==> self.layout@[j] == layout@[j],
            decreases layout@.len() - i,
        {
            if self.layout[i] != layout[i] {
                return false;
            }
            i += 1;
        }
        proof {
            assert(self.layout@ =~= layout@);
        }
        true
    }

    /// Writes `data` to the buffer. The layout of `data` must be that of the
    /// buffer.
    pub fn update<T: Std140>(&self, gl: &mut GlQueue, data: &T)
        requires
            self.layout@ == data.spec_std140_layout(),
        ensures
            final(gl).last_name() == old(gl).last_name(),
            final(gl)@ == old(gl)@ + data.spec_writes(self.id),
    {
        data.write_to_ubo(self, gl);
    }

    /// Gives the buffer up.
    pub fn delete(self, gl: &mut GlQueue)
        ensures
            final(gl).last_name() == old(gl).last_name(),
            final(gl)@ == old(gl)@.push(GlCommand::DeleteBuffer { buffer: self.id }),
    {
        gl.push(GlCommand::DeleteBuffer { buffer: self.id });
    }

    /// Binds the buffer to the binding point `binding_point` of uniform
    /// blocks.
    pub fn bind(&self, gl: &mut GlQueue, binding_point: u32) -> (this: &Self)
        ensures
            *this == *self,
            final(gl).last_name() == old(gl).last_name(),
            final(gl)@ == old(gl)@.push(
                GlCommand::BindBufferBase {
                    target: BufferTarget::Uniform,
                    index: binding_point,
                    buffer: self.id,
                },
            ),
    {
        gl.push(
            GlCommand::BindBufferBase {
                target: BufferTarget::Uniform,
                index: binding_point,
                buffer: self.id,
            },
        );
        self
    }
}

} // verus!
