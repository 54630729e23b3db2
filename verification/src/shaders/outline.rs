//! The flat shader that draws outlines.

use crate::containers::Container;
use crate::ecs::components::{PointLight, Transform};
use crate::ecs::storage::ComponentStore;
use crate::gl_wrapper::shader_compilation::ShaderProgram;
use crate::gl_wrapper::{GlCommand, GlQueue, UniformValue};
use crate::math::{Mat4, Vec3};
use crate::shaders::{compilation, compile, ShaderData};
use vstd::prelude::*;

verus! {

/// What the outline of a mesh is drawn with.
#[derive(Clone, Copy, Debug, PartialEq, Eq, Structural)]
pub struct OutlineData {
    pub color: Vec3,
}

/// The outline shader.
#[derive(Debug)]
pub struct OutlineShader {
    pub program: ShaderProgram,
}

impl OutlineShader {
    /// The commands that put the shader in use with the model matrix
    /// `model`.
    pub open spec fn spec_bind_model(&self, model: Mat4) -> Seq<GlCommand> {
        seq![
            GlCommand::UseProgram { program: self.program.id },
            GlCommand::SetUniform {
                program: self.program.id,
                name: "model",
                value: UniformValue::Matrix4(model),
            },
        ]
    }

    /// Builds the program of the shader from its sources.
    pub fn compile_program(gl: &mut GlQueue, vertex_source: String, fragment_source: String) -> (program:
        ShaderProgram)
        requires
            old(gl).has_names(3),
        ensures
            program.id == old(gl).last_name() + 3,
            final(gl).last_name() == program.id,
            final(gl)@ == old(gl)@ + compilation(
                old(gl).last_name(),
                vertex_source,
                fragment_source,
            ),
    {
        compile(gl, vertex_source, fragment_source)
    }

    /// The shader, built from its sources.
    pub fn new(gl: &mut GlQueue, vertex_source: String, fragment_source: String) -> (shader: Self)
        requires
            old(gl).has_names(3),
        ensures
            shader.program.id == old(gl).last_name() + 3,
            final(gl).last_name() == shader.program.id,
            final(gl)@ == old(gl)@ + compilation(
                old(gl).last_name(),
                vertex_source,
                fragment_source,
            ),
    {
        OutlineShader { program: Self::compile_program(gl, vertex_source, fragment_source) }
    }

    /// Puts the shader in use with the model matrix `model`.
    pub fn bind_model(&self, gl: &mut GlQueue, model: &Mat4)
        ensures
            final(gl).last_name() == old(gl).last_name(),
            final(gl)@ == old(gl)@ + self.spec_bind_model(*model),
    {
        self.program.use_program(gl);
        self.program.set_uniform_matrix4fv(gl, "model", *model);
        proof {
            assert(gl@ =~= old(gl)@ + self.spec_bind_model(*model));
        }
    }
}

impl ShaderData for OutlineData {
    open spec fn spec_bind_model(&self, container: &Container, model: Mat4) -> Seq<GlCommand> {
        container.outline_shader.spec_bind_model(model).push(
            GlCommand::SetUniform {
                program: container.outline_shader.program.id,
                name: "color",
                value: UniformValue::Vector3(self.color),
            },
        )
    }

    /// An outline is flat: no light shines on it.
    open spec fn spec_bind_lights(
        &self,
        container: &Container,
        transforms: Map<u32, Transform>,
        point_lights: Map<u32, PointLight>,
    ) -> Seq<GlCommand> {
        Seq::empty()
    }

    fn bind_model(&self, container: &Container, gl: &mut GlQueue, model: &Mat4) {
        let shader = &container.outline_shader;
        shader.bind_model(gl, model);
        shader.program.set_uniform3f(gl, "color", self.color);
        proof {
            assert(gl@ =~= old(gl)@ + self.spec_bind_model(container, *model));
        }
    }

    fn bind_lights(
        &self,
        container: &Container,
        gl: &mut GlQueue,
        transforms: &ComponentStore<Transform>,
        point_lights: &ComponentStore<PointLight>,
    ) {
        proof {
            assert(gl@ =~= old(gl)@ + self.spec_bind_lights(container, transforms@, point_lights@));
        }
    }
}

} // verus!
