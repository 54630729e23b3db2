//! The shader programs of the engine and the data that materials bind to
//! them.

pub mod cube_map;
pub mod diffuse;
pub mod outline;
pub mod post_processing;
pub mod voxel;

use crate::containers::Container;
use crate::ecs::components::{PointLight, Transform};
use crate::ecs::storage::ComponentStore;
use crate::gl_wrapper::shader_compilation::{ShaderPart, ShaderProgram};
use crate::gl_wrapper::{GlCommand, GlQueue, ShaderKind};
use crate::math::Mat4;
use vstd::prelude::*;

verus! {

/// The commands that build a program from the two sources, in a queue whose
/// last name is `last_name`: the vertex shader gets the next name, the
/// fragment shader the one after it, and the program the third.
pub open spec fn compilation(last_name: u32, vertex_source: String, fragment_source: String) -> Seq<
    GlCommand,
> {
    seq![
        GlCommand::CompileShader {
            shader: (last_name + 1) as u32,
            kind: ShaderKind::Vertex,
            source: vertex_source,
        },
        GlCommand::CompileShader {
            shader: (last_name + 2) as u32,
            kind: ShaderKind::Fragment,
            source: fragment_source,
        },
    ] + ShaderProgram::creation(
        (last_name + 3) as u32,
        (last_name + 1) as u32,
        (last_name + 2) as u32,
    )
}

/// Compiles the two sources and links them to a program.
pub fn compile(gl: &mut GlQueue, vertex_source: String, fragment_source: String) -> (program:
    ShaderProgram)
    requires
        old(gl).has_names(3),
    ensures
        program.id == old(gl).last_name() + 3,
        final(gl).last_name() == program.id,
        final(gl)@ == old(gl)@ + compilation(old(gl).last_name(), vertex_source, fragment_source),
{
    let vert_shader = ShaderPart::from_vert_source(gl, vertex_source);
    let frag_shader = ShaderPart::from_frag_source(gl, fragment_source);
    let program = ShaderProgram::from_shaders(gl, vert_shader, frag_shader);
    proof {
        assert(gl@ =~= old(gl)@ + compilation(
            old(gl).last_name(),
            vertex_source,
            fragment_source,
        ));
    }
    program
}

/// What a material binds before its mesh is drawn.
pub trait ShaderData {
    /// The commands that bind the material for a mesh with the model matrix
    /// `model`.
    spec fn spec_bind_model(&self, container: &Container, model: Mat4) -> Seq<GlCommand>;

    /// The commands that bind the lights of the scene.
    spec fn spec_bind_lights(
        &self,
        container: &Container,
        transforms: Map<u32, Transform>,
        point_lights: Map<u32, PointLight>,
    ) -> Seq<GlCommand>;

    /// Binds the shader of the material, the model matrix and what the
    /// material is made of.
    fn bind_model(&self, container: &Container, gl: &mut GlQueue, model: &Mat4)
        ensures
            final(gl).last_name() == old(gl).last_name(),
            final(gl)@ == old(gl)@ + self.spec_bind_model(container, *model),
    ;

    /// Binds the lights that shine on the material.
    fn bind_lights(
        &self,
        container: &Container,
        gl: &mut GlQueue,
        transforms: &ComponentStore<Transform>,
        point_lights: &ComponentStore<PointLight>,
    )
        requires
            transforms.wf(),
            point_lights.wf(),
        ensures
            final(gl).last_name() == old(gl).last_name(),
            final(gl)@ == old(gl)@ + self.spec_bind_lights(container, transforms@, point_lights@),
    ;
}

} // verus!
