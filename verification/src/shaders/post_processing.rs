//! The shaders of the post-processing effects.

use crate::gl_wrapper::shader_compilation::ShaderProgram;
use crate::gl_wrapper::texture_2d::Texture2D;
use crate::gl_wrapper::{GlCommand, GlQueue, UniformValue};
use crate::shaders::{compilation, compile};
use std::sync::Arc;
use vstd::prelude::*;

verus! {

/// The commands that make `program` read the picture `texture` as its
/// screen texture, from texture unit 0.
pub open spec fn screen_texture_binding(program: u32, texture: u32) -> Seq<GlCommand> {
    seq![GlCommand::UseProgram { program }] + Texture2D::activation(texture, 0) + seq![
        GlCommand::SetUniform { program, name: "screen_texture", value: UniformValue::Int(0) },
    ]
}

/// Puts `program` in use and makes it read `texture` as its screen texture.
fn bind_screen(program: &ShaderProgram, gl: &mut GlQueue, texture: &Texture2D)
    ensures
        final(gl).last_name() == old(gl).last_name(),
        final(gl)@ == old(gl)@ + screen_texture_binding(program.id, texture.id),
{
    program.use_program(gl);
    texture.activate(gl, 0);
    program.set_uniform1i(gl, "screen_texture", 0);
    proof {
        assert(gl@ =~= old(gl)@ + screen_texture_binding(program.id, texture.id));
    }
}

/// The square of `side`.
pub open spec fn square(side: int) -> int {
    side * side
}

/// Whether `side` is odd and `len` its square.
pub open spec fn is_odd_square_of(len: int, side: int) -> bool {
    0 < side && side % 2 == 1 && square(side) == len
}

/// Whether `len` is the square of an odd number.
pub open spec fn is_odd_square(len: int) -> bool {
    exists|side: int| is_odd_square_of(len, side)
}

proof fn lemma_square_increases(a: int, b: int)
    requires
        0 < a < b,
    ensures
        square(a) < square(b),
        a <= square(a),
{
    assert(a * a < b * b) by (nonlinear_arith)
        requires
            0 < a < b,
    ;
    assert(a <= a * a) by (nonlinear_arith)
        requires
            0 < a,
    ;
}

/// The side of a square kernel of `len` weights, if `len` is the square of
/// an odd number.
pub fn kernel_side(len: usize) -> (side: Option<usize>)
    ensures
        match side {
            Some(side) => is_odd_square_of(len as int, side as int),
            None => !is_odd_square(len as int),
        },
{
    let mut side: usize = 1;
    loop
        invariant
            1 <= side,
            side <= len || side == 1,
            forall|s: int| 0 < s < side ==> #[trigger] square(s) < len,
        decreases len - side,
    {
        assert((side as u128) * (side as u128) <= u128::MAX) by (nonlinear_arith)
            requires
                side <= 0xFFFF_FFFF_FFFF_FFFF,
        ;
        let product: u128 = (side as u128) * (side as u128);
        assert(product == square(side as int));
        if product >= len as u128 {
            proof {
                if product != len || side % 2 != 1 {
                    assert forall|s: int| !is_odd_square_of(len as int, s) by {
                        if s > side {
                            lemma_square_increases(side as int, s);
                        } else if 0 < s < side {
                            assert(square(s) < len);
                        }
                    }
                }
            }
            return if product == len as u128 && side % 2 == 1 {
                Some(side)
            } else {
                None
            };
        }
        proof {
            lemma_square_increases(side as int, side as int + 1);
        }
        side += 1;
    }
}

/// The shader that convolves the picture with a square kernel.
#[derive(Debug)]
pub struct KernelShader {
    pub program: ShaderProgram,
}

impl KernelShader {
    /// Builds the program of the shader from its sources.
    pub fn compile_program(gl: &mut GlQueue, vertex_source: String, fragment_source: String) -> (program:
        ShaderProgram)
        requires
            old(gl).has_names(3),
        ensures
            program.id == old(gl).last_name() + 3,
            final(gl).last_name() == program.id,
            final(gl)@ == old(gl)@ + compilation(
                old(gl).last_name(),
                vertex_source,
                fragment_source,
            ),
    {
        compile(gl, vertex_source, fragment_source)
    }

    /// The shader, built from its sources.
    pub fn new(gl: &mut GlQueue, vertex_source: String, fragment_source: String) -> (shader: Self)
        requires
            old(gl).has_names(3),
        ensures
            shader.program.id == old(gl).last_name() + 3,
            final(gl).last_name() == shader.program.id,
            final(gl)@ == old(gl)@ + compilation(
                old(gl).last_name(),
                vertex_source,
                fragment_source,
            ),
    {
        KernelShader { program: Self::compile_program(gl, vertex_source, fragment_source) }
    }

    /// Puts the shader in use and makes it read `texture` as the picture.
    pub fn bind_screen_texture(&self, gl: &mut GlQueue, texture: &Texture2D)
        ensures
            final(gl).last_name() == old(gl).last_name(),
            final(gl)@ == old(gl)@ + screen_texture_binding(self.program.id, texture.id),
    {
        bind_screen(&self.program, gl, texture)
    }

    /// The commands that hand the shader a kernel of the given side.
    pub open spec fn spec_bind_kernel(&self, kernel: Arc<Vec<u32>>, side: i32) -> Seq<GlCommand> {
        seq![
            GlCommand::SetUniform {
                program: self.program.id,
                name: "kernel",
                value: UniformValue::Scalars(kernel),
            },
            GlCommand::SetUniform {
                program: self.program.id,
                name: "kernel_size",
                value: UniformValue::Int(side),
            },
        ]
    }

    /// Hands the shader the weights of a square kernel, row after row, and
    /// the side of the square.
    pub fn bind_kernel(&self, gl: &mut GlQueue, kernel: Arc<Vec<u32>>, side: i32)
        requires
            is_odd_square_of(kernel@.len() as int, side as int),
        ensures
            final(gl).last_name() == old(gl).last_name(),
            final(gl)@ == old(gl)@ + self.spec_bind_kernel(kernel, side),
    {
        self.program.set_uniform1fv(gl, "kernel", kernel);
        self.program.set_uniform1i(gl, "kernel_size", side);
        proof {
            assert(gl@ =~= old(gl)@ + self.spec_bind_kernel(kernel, side));
        }
    }
}

/// The shader that blurs the picture along one axis.
#[derive(Debug)]
pub struct GaussianBlurShader {
    pub program: ShaderProgram,
}

impl GaussianBlurShader {
    /// Builds the program of the shader from its sources.
    pub fn compile_program(gl: &mut GlQueue, vertex_source: String, fragment_source: String) -> (program:
        ShaderProgram)
        requires
            old(gl).has_names(3),
        ensures
            program.id == old(gl).last_name() + 3,
            final(gl).last_name() == program.id,
            final(gl)@ == old(gl)@ + compilation(
                old(gl).last_name(),
                vertex_source,
                fragment_source,
            ),
    {
        compile(gl, vertex_source, fragment_source)
    }

    /// The shader, built from its sources.
    pub fn new(gl: &mut GlQueue, vertex_source: String, fragment_source: String) -> (shader: Self)
        requires
            old(gl).has_names(3),
        ensures
            shader.program.id == old(gl).last_name() + 3,
            final(gl).last_name() == shader.program.id,
            final(gl)@ == old(gl)@ + compilation(
                old(gl).last_name(),
                vertex_source,
                fragment_source,
            ),
    {
        GaussianBlurShader { program: Self::compile_program(gl, vertex_source, fragment_source) }
    }

    /// Puts the shader in use and makes it read `texture` as the picture.
    pub fn bind_screen_texture(&self, gl: &mut GlQueue, texture: &Texture2D)
        ensures
            final(gl).last_name() == old(gl).last_name(),
            final(gl)@ == old(gl)@ + screen_texture_binding(self.program.id, texture.id),
    {
        bind_screen(&self.program, gl, texture)
    }

    /// The commands that hand the shader a row of weights and the axis to
    /// blur along.
    pub open spec fn spec_bind_kernel(&self, kernel: Arc<Vec<u32>>, vertical: bool) -> Seq<GlCommand> {
        seq![
            GlCommand::SetUniform {
                program: self.program.id,
                name: "row",
                value: UniformValue::Scalars(kernel),
            },
            GlCommand::SetUniform {
                program: self.program.id,
                name: "row_size",
                value: UniformValue::Int(kernel@.len() as i32),
            },
            GlCommand::SetUniform {
                program: self.program.id,
                name: "vertical",
                value: UniformValue::Int(
                    if vertical {
                        1i32
                    } else {
                        0i32
                    },
                ),
            },
        ]
    }

    /// Hands the shader the row of weights `kernel` and whether to blur
    /// along the vertical axis.
    pub fn bind_kernel(&self, gl: &mut GlQueue, kernel: Arc<Vec<u32>>, vertical: bool)
        requires
            kernel@.len() <= i32::MAX,
        ensures
            final(gl).last_name() == old(gl).last_name(),
            final(gl)@ == old(gl)@ + self.spec_bind_kernel(kernel, vertical),
    {
        let row_size = kernel.len() as i32;
        self.program.set_uniform1fv(gl, "row", kernel);
        self.program.set_uniform1i(gl, "row_size", row_size);
        self.program.set_uniform1i(gl, "vertical", if vertical { 1 } else { 0 });
        proof {
            assert(gl@ =~= old(gl)@ + self.spec_bind_kernel(kernel, vertical));
        }
    }
}

/// The shader of a single post-processing pass over the picture.
#[derive(Debug)]
pub struct PostProcessingShader {
    pub program: ShaderProgram,
}

impl PostProcessingShader {
    /// Builds the program of the shader from its sources.
    pub fn compile_program(gl: &mut GlQueue, vertex_source: String, fragment_source: String) -> (program:
        ShaderProgram)
        requires
            old(gl).has_names(3),
        ensures
            program.id == old(gl).last_name() + 3,
            final(gl).last_name() == program.id,
            final(gl)@ == old(gl)@ + compilation(
                old(gl).last_name(),
                vertex_source,
                fragment_source,
            ),
    {
        compile(gl, vertex_source, fragment_source)
    }

    /// The shader, built from its sources.
    pub fn new(gl: &mut GlQueue, vertex_source: String, fragment_source: String) -> (shader: Self)
        requires
            old(gl).has_names(3),
        ensures
            shader.program.id == old(gl).last_name() + 3,
            final(gl).last_name() == shader.program.id,
            final(gl)@ == old(gl)@ + compilation(
                old(gl).last_name(),
                vertex_source,
                fragment_source,
            ),
    {
        PostProcessingShader { program: Self::compile_program(gl, vertex_source, fragment_source) }
    }

    /// Puts the shader in use and makes it read `texture` as the picture.
    pub fn bind_screen_texture(&self, gl: &mut GlQueue, texture: &Texture2D)
        ensures
            final(gl).last_name() == old(gl).last_name(),
            final(gl)@ == old(gl)@ + screen_texture_binding(self.program.id, texture.id),
    {
        bind_screen(&self.program, gl, texture)
    }
}

} // verus!
