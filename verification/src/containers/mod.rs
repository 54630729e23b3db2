//! What the renderer needs at hand: the shader programs and the shapes that
//! every scene uses. A container is built once, when the graphics context
//! is ready, and handed by reference to whoever draws.

pub mod global_instances;

use crate::gl_wrapper::{GlCommand, GlQueue};
use crate::shaders::cube_map::CubeMapShader;
use crate::shaders::diffuse::DiffuseShader;
use crate::shaders::outline::OutlineShader;
use crate::shaders::post_processing::{GaussianBlurShader, KernelShader};
use crate::shaders::compilation;
use crate::shapes::{
    cube_positions, double_buffer_shape, quad_positions, quad_texcoords, single_buffer_shape,
    PredefinedShapes,
};
use vstd::prelude::*;

verus! {

/// The shaders and shapes of the renderer.
#[derive(Debug)]
pub struct Container {
    pub cube_map_shader: CubeMapShader,
    pub diffuse_shader: DiffuseShader,
    pub outline_shader: OutlineShader,
    pub kernel_shader: KernelShader,
    pub gaussian_blur_shader: GaussianBlurShader,
    pub predefined_shapes: PredefinedShapes,
}

/// The sources of the two stages of a shader program.
#[derive(Debug)]
pub struct ShaderSources {
    pub vertex: String,
    pub fragment: String,
}

impl Container {
    /// The commands that build the five shaders in a queue whose last name
    /// is `last_name`, each from its sources, one after the other.
    pub open spec fn shaders(
        last_name: u32,
        cube_map: ShaderSources,
        diffuse: ShaderSources,
        outline: ShaderSources,
        kernel: ShaderSources,
        gaussian_blur: ShaderSources,
    ) -> Seq<GlCommand> {
        compilation(last_name, cube_map.vertex, cube_map.fragment) + compilation(
            (last_name + 3) as u32,
            diffuse.vertex,
            diffuse.fragment,
        ) + compilation((last_name + 6) as u32, outline.vertex, outline.fragment) + compilation(
            (last_name + 9) as u32,
            kernel.vertex,
            kernel.fragment,
        ) + compilation((last_name + 12) as u32, gaussian_blur.vertex, gaussian_blur.fragment)
    }

    /// Builds the shaders from their sources, in the order of the
    /// parameters, and then the shapes.
    pub fn new(
        gl: &mut GlQueue,
        cube_map: ShaderSources,
        diffuse: ShaderSources,
        outline: ShaderSources,
        kernel: ShaderSources,
        gaussian_blur: ShaderSources,
    ) -> (container: Container)
        requires
            old(gl).has_names(20),
        ensures
            container.cube_map_shader.program.id == old(gl).last_name() + 3,
            container.diffuse_shader.program.id == old(gl).last_name() + 6,
            container.outline_shader.program.id == old(gl).last_name() + 9,
            container.kernel_shader.program.id == old(gl).last_name() + 12,
            container.gaussian_blur_shader.program.id == old(gl).last_name() + 15,
            container.predefined_shapes.unit_cube.id == old(gl).last_name() + 17,
            container.predefined_shapes.unit_quad.id == old(gl).last_name() + 20,
            final(gl).last_name() == old(gl).last_name() + 20,
            exists|cube: Vec<u32>, positions: Vec<u32>, texcoords: Vec<u32>|
                cube@ == cube_positions() && positions@ == quad_positions() && texcoords@
                    == quad_texcoords() && final(gl)@ == old(gl)@ + Self::shaders(
                    old(gl).last_name(),
                    cube_map,
                    diffuse,
                    outline,
                    kernel,
                    gaussian_blur,
                ) + #[trigger] single_buffer_shape((old(gl).last_name() + 15) as u32, 3, cube)
                    + #[trigger] double_buffer_shape(
                    (old(gl).last_name() + 17) as u32,
                    positions,
                    texcoords,
                ),
    {
        let cube_map_shader = CubeMapShader::new(gl, cube_map.vertex, cube_map.fragment);
        let diffuse_shader = DiffuseShader::new(gl, diffuse.vertex, diffuse.fragment);
        let outline_shader = OutlineShader::new(gl, outline.vertex, outline.fragment);
        let kernel_shader = KernelShader::new(gl, kernel.vertex, kernel.fragment);
        let gaussian_blur_shader = GaussianBlurShader::new(
            gl,
            gaussian_blur.vertex,
            gaussian_blur.fragment,
        );
        let ghost compiled = gl@;
        proof {
            assert(compiled =~= old(gl)@ + Self::shaders(
                old(gl).last_name(),
                cube_map,
                diffuse,
                outline,
                kernel,
                gaussian_blur,
            ));
        }
        let predefined_shapes = PredefinedShapes::new(gl);
        proof {
            let start = (old(gl).last_name() + 15) as u32;
            let (cube, positions, texcoords) = choose|
                cube: Vec<u32>,
                positions: Vec<u32>,
                texcoords: Vec<u32>,
            |
                cube@ == cube_positions() && positions@ == quad_positions() && texcoords@
                    == quad_texcoords() && gl@ == compiled + #[trigger] single_buffer_shape(
                    start,
                    3,
                    cube,
                ) + #[trigger] double_buffer_shape((start + 2) as u32, positions, texcoords);
            assert(gl@ == old(gl)@ + Self::shaders(
                old(gl).last_name(),
                cube_map,
                diffuse,
                outline,
                kernel,
                gaussian_blur,
            ) + single_buffer_shape((old(gl).last_name() + 15) as u32, 3, cube)
                + double_buffer_shape((old(gl).last_name() + 17) as u32, positions, texcoords));
        }
        Container {
            cube_map_shader,
            diffuse_shader,
            outline_shader,
            kernel_shader,
            gaussian_blur_shader,
            predefined_shapes,
        }
    }
}

} // verus!
