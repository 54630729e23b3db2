//! The shader that draws chunks of blocks.

use crate::gl_wrapper::shader_compilation::ShaderProgram;
use crate::gl_wrapper::{GlCommand, GlQueue, UniformValue};
use crate::shaders::{compilation, compile};
use vstd::prelude::*;

verus! {

/// The block shader.
#[derive(Debug)]
pub struct VoxelShader {
    pub program: ShaderProgram,
}

impl VoxelShader {
    /// Builds the program of the shader from its sources.
    pub fn compile_program(gl: &mut GlQueue, vertex_source: String, fragment_source: String) -> (program:
        ShaderProgram)
        requires
            old(gl).has_names(3),
        ensures
            program.id == old(gl).last_name() + 3,
            final(gl).last_name() == program.id,
            final(gl)@ == old(gl)@ + compilation(
                old(gl).last_name(),
                vertex_source,
                fragment_source,
            ),
    {
        compile(gl, vertex_source, fragment_source)
    }

    /// The shader, built from its sources.
    pub fn new(gl: &mut GlQueue, vertex_source: String, fragment_source: String) -> (shader: Self)
        requires
            old(gl).has_names(3),
        ensures
            shader.program.id == old(gl).last_name() + 3,
            final(gl).last_name() == shader.program.id,
            final(gl)@ == old(gl)@ + compilation(
                old(gl).last_name(),
                vertex_source,
                fragment_source,
            ),
    {
        VoxelShader { program: Self::compile_program(gl, vertex_source, fragment_source) }
    }

    /// Puts the program of the shader in use.
    pub fn bind(&self, gl: &mut GlQueue)
        ensures
            final(gl).last_name() == old(gl).last_name(),
            final(gl)@ == old(gl)@.push(GlCommand::UseProgram { program: self.program.id }),
    {
        self.program.use_program(gl);
    }

    /// Moves what is drawn next by `offset` blocks.
    pub fn set_offset(&self, gl: &mut GlQueue, offset: (i32, i32))
        ensures
            final(gl).last_name() == old(gl).last_name(),
            final(gl)@ == old(gl)@.push(
                GlCommand::SetUniform {
                    program: self.program.id,
                    name: "offset",
                    value: UniformValue::IntAsScalar2(offset.0, offset.1),
                },
            ),
    {
        self.program.set_uniform(gl, "offset", UniformValue::IntAsScalar2(offset.0, offset.1));
    }
}

} // verus!
