//! The shader that draws lit meshes, and the material data that it reads.

use crate::containers::Container;
use crate::ecs::components::{PointLight, Transform};
use crate::ecs::storage::ComponentStore;
use crate::gl_wrapper::shader_compilation::ShaderProgram;
use crate::gl_wrapper::texture_2d::Texture2D;
use crate::gl_wrapper::{GlCommand, GlQueue, UniformValue};
use crate::math::{Mat4, Real, Vec3, HALF_BITS};
use crate::shaders::{compilation, compile, ShaderData};
use std::sync::Arc;
use vstd::prelude::*;

verus! {

/// Bit pattern of the scalar 0.7, the grey of a material without a diffuse
/// colour of its own.
pub const DEFAULT_DIFFUSE_BITS: u32 = 0x3F33_3333;

/// Bit pattern of the scalar 32, the shininess of a material that names
/// none.
pub const DEFAULT_SHININESS_BITS: u32 = 0x4200_0000;

/// One channel of a material: the same colour everywhere, or a texture.
#[derive(Debug, Clone)]
pub enum PixelData {
    Color(Vec3),
    Texture(Arc<Texture2D>),
}

/// What the diffuse shader needs to know of a material.
#[derive(Debug, Clone)]
pub struct DiffuseData {
    pub diffuse: PixelData,
    pub specular: PixelData,
    pub normal: Option<Arc<Texture2D>>,
    pub shininess: Real,
}

impl DiffuseData {
    /// The material that is used where a model names none: light grey,
    /// half as bright where it shines, without textures.
    pub open spec fn spec_default() -> DiffuseData {
        DiffuseData {
            diffuse: PixelData::Color(
                Vec3 {
                    x: Real { bits: DEFAULT_DIFFUSE_BITS },
                    y: Real { bits: DEFAULT_DIFFUSE_BITS },
                    z: Real { bits: DEFAULT_DIFFUSE_BITS },
                },
            ),
            specular: PixelData::Color(
                Vec3 {
                    x: Real { bits: HALF_BITS },
                    y: Real { bits: HALF_BITS },
                    z: Real { bits: HALF_BITS },
                },
            ),
            normal: None,
            shininess: Real { bits: DEFAULT_SHININESS_BITS },
        }
    }
}

impl Default for DiffuseData {
    fn default() -> (data: DiffuseData)
        ensures
            data == DiffuseData::spec_default(),
    {
        let grey = Real::from_bits(DEFAULT_DIFFUSE_BITS);
        let half = Real::from_bits(HALF_BITS);
        DiffuseData {
            diffuse: PixelData::Color(Vec3 { x: grey, y: grey, z: grey }),
            specular: PixelData::Color(Vec3 { x: half, y: half, z: half }),
            normal: None,
            shininess: Real::from_bits(DEFAULT_SHININESS_BITS),
        }
    }
}

/// Whether `entity` is the least entity that has a transform and a point
/// light.
pub open spec fn is_first_light(
    transforms: Map<u32, Transform>,
    point_lights: Map<u32, PointLight>,
    entity: u32,
) -> bool {
    &&& transforms.contains_key(entity)
    &&& point_lights.contains_key(entity)
    &&& forall|other: u32|
        other < entity ==> !(transforms.contains_key(other) && #[trigger] point_lights.contains_key(
            other,
        ))
}

/// Whether no entity has both a transform and a point light.
pub open spec fn no_light(transforms: Map<u32, Transform>, point_lights: Map<u32, PointLight>) -> bool {
    forall|entity: u32|
        !(transforms.contains_key(entity) && #[trigger] point_lights.contains_key(entity))
}

/// The least entity that has a transform and a point light, if there is
/// one.
pub open spec fn first_light(
    transforms: Map<u32, Transform>,
    point_lights: Map<u32, PointLight>,
) -> Option<u32> {
    if exists|entity: u32| is_first_light(transforms, point_lights, entity) {
        Some(choose|entity: u32| is_first_light(transforms, point_lights, entity))
    } else {
        None
    }
}

/// The least entity that has a transform and a point light, if there is
/// one.
pub fn find_first_light(
    transforms: &ComponentStore<Transform>,
    point_lights: &ComponentStore<PointLight>,
) -> (found: Option<u32>)
    requires
        transforms.wf(),
        point_lights.wf(),
    ensures
        found == first_light(transforms@, point_lights@),
        match found {
            Some(entity) => is_first_light(transforms@, point_lights@, entity),
            None => no_light(transforms@, point_lights@),
        },
{
    let bound = point_lights.bound();
    let mut entity: u32 = 0;
    while entity < bound
        invariant
            0 <= entity <= bound,
            forall|other: u32|
                other < entity ==> !(transforms@.contains_key(other)
                    && #[trigger] point_lights@.contains_key(other)),
        decreases bound - entity,
    {
        if transforms.contains(entity) && point_lights.contains(entity) {
            proof {
                assert(is_first_light(transforms@, point_lights@, entity));
                let chosen = choose|e: u32| is_first_light(transforms@, point_lights@, e);
                assert(chosen == entity) by {
                    if chosen < entity {
                        assert(!(transforms@.contains_key(chosen) && point_lights@.contains_key(
                            chosen,
                        )));
                    } else if entity < chosen {
                        assert(!(transforms@.contains_key(entity) && point_lights@.contains_key(
                            entity,
                        )));
                    }
                }
            }
            return Some(entity);
        }
        entity += 1;
    }
    proof {
        assert forall|e: u32|
            !(transforms@.contains_key(e) && #[trigger] point_lights@.contains_key(e)) by {
            if point_lights@.contains_key(e) {
                assert(e < bound);
            }
        }
    }
    None
}

/// The diffuse shader.
#[derive(Debug)]
pub struct DiffuseShader {
    pub program: ShaderProgram,
}

impl DiffuseShader {
    /// The commands that put the shader in use with the model matrix
    /// `model`.
    pub open spec fn spec_bind_model(&self, model: Mat4) -> Seq<GlCommand> {
        seq![
            GlCommand::UseProgram { program: self.program.id },
            GlCommand::SetUniform {
                program: self.program.id,
                name: "model",
                value: UniformValue::Matrix4(model),
            },
        ]
    }

    /// The commands that describe the point light `light` at `position`.
    pub open spec fn light_binding(&self, position: Vec3, light: PointLight) -> Seq<GlCommand> {
        seq![
            GlCommand::SetUniform {
                program: self.program.id,
                name: "light.position",
                value: UniformValue::Vector3(position),
            },
            GlCommand::SetUniform {
                program: self.program.id,
                name: "light.color",
                value: UniformValue::Vector3(light.color),
            },
            GlCommand::SetUniform {
                program: self.program.id,
                name: "light.ambient_strength",
                value: UniformValue::Scalar(Real { bits: HALF_BITS }),
            },
            GlCommand::SetUniform {
                program: self.program.id,
                name: "light.intensity",
                value: UniformValue::Scalar(light.intensity),
            },
        ]
    }

    /// The commands that bind the lights of the scene: those of the first
    /// entity with a transform and a point light, nothing where there is
    /// none.
    pub open spec fn spec_bind_lights(
        &self,
        transforms: Map<u32, Transform>,
        point_lights: Map<u32, PointLight>,
    ) -> Seq<GlCommand> {
        match first_light(transforms, point_lights) {
            Some(entity) => self.light_binding(transforms[entity].position, point_lights[entity]),
            None => Seq::empty(),
        }
    }

    /// Builds the program of the shader from its sources.
    pub fn compile_program(gl: &mut GlQueue, vertex_source: String, fragment_source: String) -> (program:
        ShaderProgram)
        requires
            old(gl).has_names(3),
        ensures
            program.id == old(gl).last_name() + 3,
            final(gl).last_name() == program.id,
            final(gl)@ == old(gl)@ + compilation(
                old(gl).last_name(),
                vertex_source,
                fragment_source,
            ),
    {
        compile(gl, vertex_source, fragment_source)
    }

    /// The shader, built from its sources.
    pub fn new(gl: &mut GlQueue, vertex_source: String, fragment_source: String) -> (shader: Self)
        requires
            old(gl).has_names(3),
        ensures
            shader.program.id == old(gl).last_name() + 3,
            final(gl).last_name() == shader.program.id,
            final(gl)@ == old(gl)@ + compilation(
                old(gl).last_name(),
                vertex_source,
                fragment_source,
            ),
    {
        DiffuseShader { program: Self::compile_program(gl, vertex_source, fragment_source) }
    }

    /// Puts the shader in use with the model matrix `model`.
    pub fn bind_model(&self, gl: &mut GlQueue, model: &Mat4)
        ensures
            final(gl).last_name() == old(gl).last_name(),
            final(gl)@ == old(gl)@ + self.spec_bind_model(*model),
    {
        self.program.use_program(gl);
        self.program.set_uniform_matrix4fv(gl, "model", *model);
        proof {
            assert(gl@ =~= old(gl)@ + self.spec_bind_model(*model));
        }
    }

    /// Binds the first point light of the scene: that of the least entity
    /// that has a transform and a point light.
    pub fn bind_lights(
        &self,
        gl: &mut GlQueue,
        transforms: &ComponentStore<Transform>,
        point_lights: &ComponentStore<PointLight>,
    )
        requires
            transforms.wf(),
            point_lights.wf(),
        ensures
            final(gl).last_name() == old(gl).last_name(),
            final(gl)@ == old(gl)@ + self.spec_bind_lights(transforms@, point_lights@),
    {
        match find_first_light(transforms, point_lights) {
            Some(entity) => {
                let position = match transforms.get(entity) {
                    Some(transform) => transform.position,
                    None => Vec3 { x: Real::zero(), y: Real::zero(), z: Real::zero() },
                };
                match point_lights.get(entity) {
                    Some(point_light) => {
                        self.program.set_uniform3f(gl, "light.position", position);
                        self.program.set_uniform3f(gl, "light.color", point_light.color);
                        self.program.set_uniform1f(
                            gl,
                            "light.ambient_strength",
                            Real::from_bits(HALF_BITS),
                        );
                        self.program.set_uniform1f(gl, "light.intensity", point_light.intensity);
                        proof {
                            assert(gl@ =~= old(gl)@ + self.light_binding(position, *point_light));
                        }
                    },
                    None => {},
                }
            },
            None => {
                proof {
                    assert(gl@ =~= old(gl)@ + Seq::<GlCommand>::empty());
                }
            },
        }
    }
}

/// The commands that bind one channel of a material to `program`: a
/// texture goes to the texture unit `unit` and the shader is told to read
/// it there; a colour is handed over as it is.
pub open spec fn channel_binding(
    program: u32,
    data: PixelData,
    unit: u32,
    texture_name: &'static str,
    color_name: &'static str,
    switch_name: &'static str,
) -> Seq<GlCommand> {
    match data {
        PixelData::Texture(texture) => Texture2D::activation(texture.id, unit) + seq![
            GlCommand::SetUniform {
                program,
                name: texture_name,
                value: UniformValue::Int(unit as i32),
            },
            GlCommand::SetUniform { program, name: switch_name, value: UniformValue::Int(1) },
        ],
        PixelData::Color(color) => seq![
            GlCommand::SetUniform { program, name: color_name, value: UniformValue::Vector3(color) },
            GlCommand::SetUniform { program, name: switch_name, value: UniformValue::Int(0) },
        ],
    }
}

/// The commands that bind the normal map of a material, if it has one, to
/// texture unit 2 of `program`.
pub open spec fn normal_binding(program: u32, normal: Option<Arc<Texture2D>>) -> Seq<GlCommand> {
    match normal {
        Some(texture) => Texture2D::activation(texture.id, 2).push(
            GlCommand::SetUniform {
                program,
                name: "material.normal_texture",
                value: UniformValue::Int(2),
            },
        ),
        None => Seq::empty(),
    }
}

/// Binds one channel of a material.
fn bind_channel(
    program: &ShaderProgram,
    gl: &mut GlQueue,
    data: &PixelData,
    unit: u32,
    texture_name: &'static str,
    color_name: &'static str,
    switch_name: &'static str,
)
    requires
        unit <= 16,
    ensures
        final(gl).last_name() == old(gl).last_name(),
        final(gl)@ == old(gl)@ + channel_binding(
            program.id,
            *data,
            unit,
            texture_name,
            color_name,
            switch_name,
        ),
{
    match data {
        PixelData::Texture(texture) => {
            texture.activate(gl, unit);
            program.set_uniform1i(gl, texture_name, unit as i32);
            program.set_uniform1i(gl, switch_name, 1);
        },
        PixelData::Color(color) => {
            program.set_uniform3f(gl, color_name, *color);
            program.set_uniform1i(gl, switch_name, 0);
        },
    }
    proof {
        assert(gl@ =~= old(gl)@ + channel_binding(
            program.id,
            *data,
            unit,
            texture_name,
            color_name,
            switch_name,
        ));
    }
}

impl ShaderData for DiffuseData {
    /// The shader and the model matrix, then the diffuse channel on
    /// texture unit 0, the specular channel on unit 1, the normal map on
    /// unit 2, and the shininess.
    open spec fn spec_bind_model(&self, container: &Container, model: Mat4) -> Seq<GlCommand> {
        let program = container.diffuse_shader.program.id;
        container.diffuse_shader.spec_bind_model(model) + channel_binding(
            program,
            self.diffuse,
            0,
            "material.diffuse_texture",
            "material.diffuse_color",
            "material.using_diffuse_texture",
        ) + channel_binding(
            program,
            self.specular,
            1,
            "material.specular_texture",
            "material.specular_color",
            "material.using_specular_texture",
        ) + normal_binding(program, self.normal).push(
            GlCommand::SetUniform {
                program,
                name: "material.shininess",
                value: UniformValue::Scalar(self.shininess),
            },
        )
    }

    open spec fn spec_bind_lights(
        &self,
        container: &Container,
        transforms: Map<u32, Transform>,
        point_lights: Map<u32, PointLight>,
    ) -> Seq<GlCommand> {
        container.diffuse_shader.spec_bind_lights(transforms, point_lights)
    }

    fn bind_model(&self, container: &Container, gl: &mut GlQueue, model: &Mat4) {
        let shader = &container.diffuse_shader;
        shader.bind_model(gl, model);
        bind_channel(
            &shader.program,
            gl,
            &self.diffuse,
            0,
            "material.diffuse_texture",
            "material.diffuse_color",
            "material.using_diffuse_texture",
        );
        bind_channel(
            &shader.program,
            gl,
            &self.specular,
            1,
            "material.specular_texture",
            "material.specular_color",
            "material.using_specular_texture",
        );
        match &self.normal {
            Some(texture) => {
                texture.activate(gl, 2);
                shader.program.set_uniform1i(gl, "material.normal_texture", 2);
            },
            None => {},
        }
        shader.program.set_uniform1f(gl, "material.shininess", self.shininess);
        proof {
            assert(gl@ =~= old(gl)@ + self.spec_bind_model(container, *model));
        }
    }

    fn bind_lights(
        &self,
        container: &Container,
        gl: &mut GlQueue,
        transforms: &ComponentStore<Transform>,
        point_lights: &ComponentStore<PointLight>,
    ) {
        container.diffuse_shader.bind_lights(gl, transforms, point_lights);
    }
}

} // verus!
