//! The shader that draws the skybox.

use crate::gl_wrapper::shader_compilation::ShaderProgram;
use crate::gl_wrapper::{GlCommand, GlQueue, UniformValue};
use crate::shaders::{compilation, compile};
use vstd::prelude::*;

verus! {

/// The skybox shader.
#[derive(Debug)]
pub struct CubeMapShader {
    pub program: ShaderProgram,
}

impl CubeMapShader {
    /// The commands that make the shader ready to draw: its program in
    /// use, its cube map read from texture unit 0.
    pub open spec fn spec_bind(&self) -> Seq<GlCommand> {
        seq![
            GlCommand::UseProgram { program: self.program.id },
            GlCommand::SetUniform {
                program: self.program.id,
                name: "cube_map",
                value: UniformValue::Int(0),
            },
        ]
    }

    /// Builds the program of the shader from its sources.
    pub fn compile_program(gl: &mut GlQueue, vertex_source: String, fragment_source: String) -> (program:
        ShaderProgram)
        requires
            old(gl).has_names(3),
        ensures
            program.id == old(gl).last_name() + 3,
            final(gl).last_name() == program.id,
            final(gl)@ == old(gl)@ + compilation(
                old(gl).last_name(),
                vertex_source,
                fragment_source,
            ),
    {
        compile(gl, vertex_source, fragment_source)
    }

    /// The shader, built from its sources.
    pub fn new(gl: &mut GlQueue, vertex_source: String, fragment_source: String) -> (shader: Self)
        requires
            old(gl).has_names(3),
        ensures
            shader.program.id == old(gl).last_name() + 3,
            final(gl).last_name() == shader.program.id,
            final(gl)@ == old(gl)@ + compilation(
                old(gl).last_name(),
                vertex_source,
                fragment_source,
            ),
    {
        CubeMapShader { program: Self::compile_program(gl, vertex_source, fragment_source) }
    }

    /// Makes the shader ready to draw.
    pub fn bind(&self, gl: &mut GlQueue)
        ensures
            final(gl).last_name() == old(gl).last_name(),
            final(gl)@ == old(gl)@ + self.spec_bind(),
    {
        self.program.use_program(gl);
        self.program.set_uniform1i(gl, "cube_map", 0);
        proof {
            assert(gl@ =~= old(gl)@ + self.spec_bind());
        }
    }
}

} // verus!
