//! The render system: one frame of the active camera, as commands for the
//! graphics queue.
//!
//! A frame is made of passes. The opaque pass draws every mesh and marks, in
//! the stencil buffer, the texels of the meshes that are to be outlined. The
//! skybox pass fills what the meshes left free. The outline pass draws the
//! marked meshes once more, larger and in one colour, where the stencil
//! buffer is not marked. The post-processing chain hands the picture from
//! effect to effect; the last effect draws onto the visible surface.

use crate::containers::Container;
use crate::ecs::components::{
    Background, Camera, MeshRenderer, Outliner, PointLight, Projection, Transform,
};
use crate::ecs::join::{ascending, lemma_ascending_below, lemma_ascending_unique, retain_present};
use crate::ecs::resources::ActiveCamera;
use crate::ecs::storage::ComponentStore;
use crate::gl_wrapper::fbo::FBO;
use crate::gl_wrapper::texture_cube_map::TextureCubeMap;
use crate::gl_wrapper::ubo::{std140_layout_size, GlslTypes, Std140, UBO};
use crate::gl_wrapper::{
    BufferTarget, BufferUpdateFrequency, CameraRecipe, Capability, Comparison, GlCommand, GlQueue,
    ModelRecipe, StencilAction, TextureTarget, UniformValue,
};
use crate::math::{Real, ONE_BITS};
use crate::post_processing_effects::{binds_offscreen, binds_screen, Effect, PPEffect};
use crate::shaders::ShaderData;
use crate::shapes::CUBE_VERTICES;
use vstd::prelude::*;

verus! {

/// Side of the square viewport that the scene is drawn into.
pub const VIEWPORT_SIZE: i32 = 800;

/// The value that the stencil buffer is marked with.
pub const STENCIL_MARK: i32 = 1;

/// The view and the projection of a camera, as the uniform block of the
/// shaders holds them.
#[derive(Clone, Copy, Debug)]
pub struct CameraUBO {
    pub camera: CameraRecipe,
}

impl Std140 for CameraUBO {
    /// Two 4x4 matrices: the view, then the projection.
    open spec fn spec_std140_layout(&self) -> Seq<GlslTypes> {
        seq![GlslTypes::Mat4, GlslTypes::Mat4]
    }

    open spec fn spec_writes(&self, buffer: u32) -> Seq<GlCommand> {
        seq![GlCommand::BufferCameraData { buffer, camera: self.camera }]
    }

    fn get_std140_layout(&self) -> (layout: Vec<GlslTypes>) {
        let mut layout: Vec<GlslTypes> = Vec::new();
        layout.push(GlslTypes::Mat4);
        layout.push(GlslTypes::Mat4);
        proof {
            assert(layout@ =~= self.spec_std140_layout());
        }
        layout
    }

    fn write_to_ubo(&self, ubo: &UBO, gl: &mut GlQueue) {
        gl.push(GlCommand::BufferCameraData { buffer: ubo.id, camera: self.camera });
        proof {
            assert(gl@ =~= old(gl)@ + self.spec_writes(ubo.id));
        }
    }
}

/// What the render system draws: the components of the scene, by entity.
pub struct Scene {
    pub transforms: Map<u32, Transform>,
    pub meshes: Map<u32, MeshRenderer>,
    pub point_lights: Map<u32, PointLight>,
    pub outliners: Map<u32, Outliner>,
}

impl Scene {
    /// The entities that are drawn: those with a transform and a mesh.
    pub open spec fn visible(self) -> Set<u32> {
        self.transforms.dom().intersect(self.meshes.dom())
    }

    /// The entities that are outlined: the visible ones with an outliner.
    pub open spec fn outlined(self) -> Set<u32> {
        self.visible().intersect(self.outliners.dom())
    }
}

/// What the camera of a frame looks like to the shaders.
pub open spec fn camera_recipe(camera: &Camera, transform: Transform) -> CameraRecipe {
    CameraRecipe {
        position: transform.position,
        rotation: transform.rotation,
        perspective: camera.projection is Perspective,
        extent: match camera.projection {
            Projection::Orthographic(size) => size,
            Projection::Perspective(fov) => fov,
        },
        aspect_ratio: camera.aspect_ratio,
        near_plane: camera.near_plane,
        far_plane: camera.far_plane,
    }
}

/// The name of the framebuffer that the scene is drawn into: that of the
/// camera where the picture goes through effects, else the visible surface.
pub open spec fn scene_target(camera: &Camera) -> u32 {
    if camera.post_processing_effects@.len() == 0 {
        0
    } else {
        match camera.fb {
            Some(fb) => fb.id,
            None => 0,
        }
    }
}

/// The commands that make the target ready for the scene.
pub open spec fn frame_setup(camera: &Camera) -> Seq<GlCommand> {
    seq![
        GlCommand::BindFramebuffer { framebuffer: scene_target(camera) },
        GlCommand::Viewport { left: 0, bottom: 0, width: VIEWPORT_SIZE, height: VIEWPORT_SIZE },
        GlCommand::Enable { capability: Capability::DepthTest },
        GlCommand::DepthFunc { comparison: Comparison::Less },
        GlCommand::Enable { capability: Capability::StencilTest },
        GlCommand::StencilMask { mask: 0xFF },
    ] + (match camera.background {
        Background::Color(red, green, blue) => seq![
            GlCommand::ClearColor { red, green, blue, alpha: Real { bits: ONE_BITS } },
        ],
        Background::Skybox(_) => Seq::empty(),
    }) + seq![
        GlCommand::Clear,
        GlCommand::StencilFunc {
            comparison: Comparison::Always,
            reference: STENCIL_MARK,
            mask: 0xFF,
        },
    ]
}

/// The commands that let what is drawn next mark the stencil buffer, or
/// keep it from doing so.
pub open spec fn stencil_writing(mark: bool) -> Seq<GlCommand> {
    if mark {
        seq![
            GlCommand::StencilMask { mask: 0xFF },
            GlCommand::StencilOp { action: StencilAction::Replace },
        ]
    } else {
        seq![
            GlCommand::StencilMask { mask: 0x00 },
            GlCommand::StencilOp { action: StencilAction::Keep },
        ]
    }
}

/// The commands that draw the mesh of `entity` in the opaque pass: its
/// vertex array, its material with the model matrix of its transform, the
/// lights, the stencil set to mark the mesh if the entity is outlined, and
/// the draw call.
pub open spec fn opaque_commands(container: &Container, scene: Scene, entity: u32) -> Seq<
    GlCommand,
> {
    let renderer = scene.meshes[entity];
    seq![GlCommand::BindVertexArray { vertex_array: renderer.mesh.vao.id }]
        + renderer.material.shader_data.spec_bind_model(
        container,
        scene.transforms[entity].model_matrix,
    ) + renderer.material.shader_data.spec_bind_lights(
        container,
        scene.transforms,
        scene.point_lights,
    ) + stencil_writing(scene.outliners.contains_key(entity)) + seq![
        GlCommand::DrawElements { indices: renderer.mesh.indices@.len() as usize },
    ]
}

/// The commands of the opaque pass for the first `n` of `entities`.
pub open spec fn opaque_pass(container: &Container, scene: Scene, entities: Seq<u32>, n: int) -> Seq<
    GlCommand,
>
    decreases n,
{
    if n <= 0 {
        Seq::empty()
    } else {
        opaque_pass(container, scene, entities, n - 1) + opaque_commands(
            container,
            scene,
            entities[n - 1],
        )
    }
}

/// The commands of the skybox pass: nothing for a camera with a plain
/// background; else the cube map drawn on the unit cube wherever the depth
/// buffer is free, without marking the stencil buffer.
pub open spec fn skybox_pass(container: &Container, camera: &Camera) -> Seq<GlCommand> {
    match camera.background {
        Background::Color(_, _, _) => Seq::empty(),
        Background::Skybox(texture) => stencil_writing(false) + seq![
            GlCommand::DepthFunc { comparison: Comparison::LessOrEqual },
        ] + container.cube_map_shader.spec_bind() + seq![
            GlCommand::BindVertexArray { vertex_array: container.predefined_shapes.unit_cube.id },
            GlCommand::ActiveTexture { unit: 0 },
            GlCommand::BindTexture { target: TextureTarget::CubeMapArray, texture: texture.id },
            GlCommand::DrawArrays { first: 0, vertices: CUBE_VERTICES },
        ],
    }
}

/// The commands that make the pipeline ready for outlines: draw only where
/// the stencil buffer is not marked, mark nothing, ignore depth.
pub open spec fn outline_setup() -> Seq<GlCommand> {
    seq![
        GlCommand::StencilFunc {
            comparison: Comparison::NotEqual,
            reference: STENCIL_MARK,
            mask: 0xFF,
        },
        GlCommand::StencilMask { mask: 0x00 },
        GlCommand::Disable { capability: Capability::DepthTest },
    ]
}

/// The commands that draw the outline of `entity`: its mesh with the
/// outline shader, at the model matrix of its transform with the scale
/// multiplied by the scale of the outliner, in the colour of the outliner.
pub open spec fn outline_commands(container: &Container, scene: Scene, entity: u32) -> Seq<
    GlCommand,
> {
    let renderer = scene.meshes[entity];
    let transform = scene.transforms[entity];
    let outliner = scene.outliners[entity];
    let program = container.outline_shader.program.id;
    seq![
        GlCommand::BindVertexArray { vertex_array: renderer.mesh.vao.id },
        GlCommand::UseProgram { program },
        GlCommand::SetUniform {
            program,
            name: "model",
            value: UniformValue::Model(
                ModelRecipe {
                    position: transform.position,
                    rotation: transform.rotation,
                    scale: transform.scale,
                    factor: outliner.scale,
                },
            ),
        },
        GlCommand::SetUniform { program, name: "color", value: UniformValue::Vector3(outliner.color) },
        GlCommand::DrawElements { indices: renderer.mesh.indices@.len() as usize },
    ]
}

/// The commands of the outline pass for the first `n` of `entities`.
pub open spec fn outline_pass(container: &Container, scene: Scene, entities: Seq<u32>, n: int) -> Seq<
    GlCommand,
>
    decreases n,
{
    if n <= 0 {
        Seq::empty()
    } else {
        outline_pass(container, scene, entities, n - 1) + outline_commands(
            container,
            scene,
            entities[n - 1],
        )
    }
}

/// The framebuffer that the effect at place `i` reads: that of the camera
/// for the first effect, for every other effect the one that the effect
/// before it drew into.
pub open spec fn chain_input(effects: Seq<Effect>, camera_fb: &FBO, i: int) -> &FBO {
    if i <= 0 {
        camera_fb
    } else {
        effects[i - 1].spec_output()
    }
}

/// The commands of the first `n` effects, each drawing into a framebuffer
/// of its own.
pub open spec fn chain_commands(
    container: &Container,
    effects: Seq<Effect>,
    camera_fb: &FBO,
    n: int,
) -> Seq<GlCommand>
    decreases n,
{
    if n <= 0 {
        Seq::empty()
    } else {
        chain_commands(container, effects, camera_fb, n - 1) + effects[n - 1].spec_apply(
            container,
            chain_input(effects, camera_fb, n - 1),
        )
    }
}

/// The commands of the post-processing chain: nothing where there is no
/// effect; else every effect but the last drawing into a framebuffer of its
/// own, and the last one drawing onto the visible surface.
pub open spec fn post_processing(container: &Container, effects: Seq<Effect>, camera_fb: &FBO) -> Seq<
    GlCommand,
> {
    if effects.len() == 0 {
        Seq::empty()
    } else {
        chain_commands(container, effects, camera_fb, effects.len() - 1) + effects[effects.len()
            - 1].spec_apply_to_screen(
            container,
            chain_input(effects, camera_fb, effects.len() - 1),
        )
    }
}

/// The commands of the effects of `camera`: nothing where the camera has no
/// framebuffer of its own; else the chain of its effects, which starts from
/// that framebuffer.
pub open spec fn camera_effects(container: &Container, camera: &Camera) -> Seq<GlCommand> {
    match camera.fb {
        Some(fb) => post_processing(container, camera.post_processing_effects@, &fb),
        None => Seq::empty(),
    }
}

/// The commands of one frame of `camera`, seen from `transform`.
pub open spec fn frame(
    ubo: u32,
    container: &Container,
    scene: Scene,
    camera: &Camera,
    transform: Transform,
) -> Seq<GlCommand> {
    (seq![GlCommand::BufferCameraData { buffer: ubo, camera: camera_recipe(camera, transform) }]
        + frame_setup(camera)) + opaque_pass(
        container,
        scene,
        ascending(scene.visible()),
        ascending(scene.visible()).len() as int,
    ) + skybox_pass(container, camera) + outline_setup() + outline_pass(
        container,
        scene,
        ascending(scene.outlined()),
        ascending(scene.outlined()).len() as int,
    ) + camera_effects(container, camera)
}

/// Whether every effect in `effects` keeps its invariant.
pub open spec fn effects_wf(effects: Seq<Effect>) -> bool {
    forall|i: int| 0 <= i < effects.len() ==> (#[trigger] effects[i]).wf()
}

/// Whether every effect in `effects` keeps its invariant.
pub fn effects_ready(effects: &Vec<Effect>) -> (ok: bool)
    ensures
        ok == effects_wf(effects@),
{
    let mut i: usize = 0;
    while i < effects.len()
        invariant
            0 <= i <= effects@.len(),
            forall|k: int| 0 <= k < i ==> (#[trigger] effects@[k]).wf(),
        decreases effects@.len() - i,
    {
        if !effects[i].ready() {
            return false;
        }
        i += 1;
    }
    true
}

/// The render system.
#[derive(Debug)]
pub struct MeshRendererSystem {
    pub camera_matrices_ubo: UBO,
}

impl MeshRendererSystem {
    /// The commands that create the uniform buffer `id` of the camera
    /// matrices and bind it to the binding point 0.
    pub open spec fn creation(id: u32) -> Seq<GlCommand> {
        UBO::creation(id, 128, BufferUpdateFrequency::Often) + seq![
            GlCommand::BindBufferBase { target: BufferTarget::Uniform, index: 0, buffer: id },
        ]
    }

    /// The invariant of the system: its uniform buffer holds two matrices.
    pub open spec fn wf(&self) -> bool {
        self.camera_matrices_ubo.layout@ == seq![GlslTypes::Mat4, GlslTypes::Mat4]
    }

    /// A render system with a uniform buffer of its own for the camera
    /// matrices, bound to the binding point 0.
    pub fn new(gl: &mut GlQueue) -> (system: MeshRendererSystem)
        requires
            old(gl).has_names(1),
        ensures
            system.wf(),
            system.camera_matrices_ubo.id == old(gl).last_name() + 1,
            final(gl).last_name() == system.camera_matrices_ubo.id,
            final(gl)@ == old(gl)@ + Self::creation(system.camera_matrices_ubo.id),
    {
        let mut layout: Vec<GlslTypes> = Vec::new();
        layout.push(GlslTypes::Mat4);
        layout.push(GlslTypes::Mat4);
        proof {
            assert(layout@ =~= seq![GlslTypes::Mat4, GlslTypes::Mat4]);
            reveal_with_fuel(std140_layout_size, 3);
            assert(std140_layout_size(layout@, 2) == 128);
        }
        let camera_matrices_ubo = UBO::new(gl, layout, BufferUpdateFrequency::Often);
        camera_matrices_ubo.bind(gl, 0);
        proof {
            assert(gl@ =~= old(gl)@ + Self::creation(camera_matrices_ubo.id));
        }
        MeshRendererSystem { camera_matrices_ubo }
    }

    /// Records the opaque pass.
    fn draw_meshes(
        gl: &mut GlQueue,
        container: &Container,
        visible: &Vec<u32>,
        transforms: &ComponentStore<Transform>,
        mesh_renderer: &ComponentStore<MeshRenderer>,
        point_lights: &ComponentStore<PointLight>,
        outliners: &ComponentStore<Outliner>,
    )
        requires
            transforms.wf(),
            point_lights.wf(),
            forall|i: int|
                0 <= i < visible@.len() ==> transforms@.contains_key(#[trigger] visible@[i])
                    && mesh_renderer@.contains_key(visible@[i]),
        ensures
            final(gl).last_name() == old(gl).last_name(),
            final(gl)@ == old(gl)@ + opaque_pass(
                container,
                Scene {
                    transforms: transforms@,
                    meshes: mesh_renderer@,
                    point_lights: point_lights@,
                    outliners: outliners@,
                },
                visible@,
                visible@.len() as int,
            ),
    {
        let ghost scene = Scene {
            transforms: transforms@,
            meshes: mesh_renderer@,
            point_lights: point_lights@,
            outliners: outliners@,
        };
        let mut i: usize = 0;
        while i < visible.len()
            invariant
                0 <= i <= visible@.len(),
                transforms.wf(),
                point_lights.wf(),
                forall|k: int|
                    0 <= k < visible@.len() ==> transforms@.contains_key(#[trigger] visible@[k])
                        && mesh_renderer@.contains_key(visible@[k]),
                scene == (Scene {
                    transforms: transforms@,
                    meshes: mesh_renderer@,
                    point_lights: point_lights@,
                    outliners: outliners@,
                }),
                gl.last_name() == old(gl).last_name(),
                gl@ == old(gl)@ + opaque_pass(container, scene, visible@, i as int),
            decreases visible@.len() - i,
        {
            let entity = visible[i];
            let ghost before = gl@;
            match (transforms.get(entity), mesh_renderer.get(entity)) {
                (Some(transform), Some(renderer)) => {
                    let model_matrix = transform.model_matrix;
                    renderer.mesh.vao.bind(gl);
                    let shader_data = &renderer.material.shader_data;
                    shader_data.bind_model(container, gl, &model_matrix);
                    shader_data.bind_lights(container, gl, transforms, point_lights);
                    // Outline stencil test
                    if outliners.contains(entity) {
                        gl.push(GlCommand::StencilMask { mask: 0xFF });
                        gl.push(GlCommand::StencilOp { action: StencilAction::Replace });
                    } else {
                        // Disable stencil write
                        gl.push(GlCommand::StencilMask { mask: 0x00 });
                        gl.push(GlCommand::StencilOp { action: StencilAction::Keep });
                    }
                    gl.push(GlCommand::DrawElements { indices: renderer.mesh.indices.len() });
                    proof {
                        assert(gl@ =~= before + opaque_commands(container, scene, entity));
                    }
                },
                _ => {
                    proof {
                        assert(transforms@.contains_key(visible@[i as int]));
                        assert(false);
                    }
                },
            }
            i += 1;
            proof {
                assert(gl@ =~= old(gl)@ + opaque_pass(container, scene, visible@, i as int));
            }
        }
    }

    /// Records the skybox pass.
    fn draw_skybox(gl: &mut GlQueue, container: &Container, camera: &Camera)
        ensures
            final(gl).last_name() == old(gl).last_name(),
            final(gl)@ == old(gl)@ + skybox_pass(container, camera),
    {
        match &camera.background {
            Background::Skybox(texture) => {
                // Disable stencil write
                gl.push(GlCommand::StencilMask { mask: 0x00 });
                gl.push(GlCommand::StencilOp { action: StencilAction::Keep });
                gl.push(GlCommand::DepthFunc { comparison: Comparison::LessOrEqual });
                container.cube_map_shader.bind(gl);
                container.predefined_shapes.unit_cube.bind(gl);
                TextureCubeMap::activate(gl, 0);
                texture.bind(gl);
                gl.push(GlCommand::DrawArrays { first: 0, vertices: CUBE_VERTICES });
                proof {
                    assert(gl@ =~= old(gl)@ + skybox_pass(container, camera));
                }
            },
            Background::Color(_, _, _) => {
                proof {
                    assert(gl@ =~= old(gl)@ + skybox_pass(container, camera));
                }
            },
        }
    }

    /// Records the outline pass.
    fn draw_outlines(
        gl: &mut GlQueue,
        container: &Container,
        outlined: &Vec<u32>,
        transforms: &ComponentStore<Transform>,
        mesh_renderer: &ComponentStore<MeshRenderer>,
        point_lights: &ComponentStore<PointLight>,
        outliners: &ComponentStore<Outliner>,
    )
        requires
            forall|i: int|
                0 <= i < outlined@.len() ==> transforms@.contains_key(#[trigger] outlined@[i])
                    && mesh_renderer@.contains_key(outlined@[i]) && outliners@.contains_key(
                    outlined@[i],
                ),
        ensures
            final(gl).last_name() == old(gl).last_name(),
            final(gl)@ == old(gl)@ + outline_pass(
                container,
                Scene {
                    transforms: transforms@,
                    meshes: mesh_renderer@,
                    point_lights: point_lights@,
                    outliners: outliners@,
                },
                outlined@,
                outlined@.len() as int,
            ),
    {
        let ghost scene = Scene {
            transforms: transforms@,
            meshes: mesh_renderer@,
            point_lights: point_lights@,
            outliners: outliners@,
        };
        let mut i: usize = 0;
        while i < outlined.len()
            invariant
                0 <= i <= outlined@.len(),
                forall|k: int|
                    0 <= k < outlined@.len() ==> transforms@.contains_key(#[trigger] outlined@[k])
                        && mesh_renderer@.contains_key(outlined@[k]) && outliners@.contains_key(
                        outlined@[k],
                    ),
                scene == (Scene {
                    transforms: transforms@,
                    meshes: mesh_renderer@,
                    point_lights: point_lights@,
                    outliners: outliners@,
                }),
                gl.last_name() == old(gl).last_name(),
                gl@ == old(gl)@ + outline_pass(container, scene, outlined@, i as int),
            decreases outlined@.len() - i,
        {
            let entity = outlined[i];
            let ghost before = gl@;
            match (transforms.get(entity), mesh_renderer.get(entity), outliners.get(entity)) {
                (Some(transform), Some(renderer), Some(outliner)) => {
                    renderer.mesh.vao.bind(gl);
                    let program = &container.outline_shader.program;
                    program.use_program(gl);
                    program.set_uniform(
                        gl,
                        "model",
                        UniformValue::Model(
                            ModelRecipe {
                                position: transform.position,
                                rotation: transform.rotation,
                                scale: transform.scale,
                                factor: outliner.scale,
                            },
                        ),
                    );
                    program.set_uniform3f(gl, "color", outliner.color);
                    gl.push(GlCommand::DrawElements { indices: renderer.mesh.indices.len() });
                    proof {
                        assert(gl@ =~= before + outline_commands(container, scene, entity));
                    }
                },
                _ => {
                    proof {
                        assert(transforms@.contains_key(outlined@[i as int]));
                        assert(false);
                    }
                },
            }
            i += 1;
            proof {
                assert(gl@ =~= old(gl)@ + outline_pass(container, scene, outlined@, i as int));
            }
        }
    }

    /// Records the post-processing chain.
    fn post_process(gl: &mut GlQueue, container: &Container, camera: &Camera)
        requires
            camera.wf(),
            effects_wf(camera.post_processing_effects@),
        ensures
            final(gl).last_name() == old(gl).last_name(),
            final(gl)@ == old(gl)@ + camera_effects(container, camera),
    {
        let effects = &camera.post_processing_effects;
        if effects.len() == 0 {
            proof {
                assert(gl@ =~= old(gl)@ + camera_effects(container, camera));
            }
            return ;
        }
        let camera_fb = match &camera.fb {
            Some(fb) => fb,
            None => {
                return ;
            },
        };
        let mut last_fb = camera_fb;
        let mut i: usize = 0;
        while i < effects.len() - 1
            invariant
                0 <= i <= effects@.len() - 1,
                effects_wf(effects@),
                *last_fb == *chain_input(effects@, camera_fb, i as int),
                gl.last_name() == old(gl).last_name(),
                gl@ == old(gl)@ + chain_commands(container, effects@, camera_fb, i as int),
            decreases effects@.len() - i,
        {
            let ghost before = gl@;
            last_fb = effects[i].apply(container, gl, last_fb);
            i += 1;
            proof {
                assert(gl@ =~= old(gl)@ + chain_commands(container, effects@, camera_fb, i as int));
            }
        }
        effects[i].apply_to_screen(container, gl, last_fb);
        proof {
            assert(gl@ =~= old(gl)@ + post_processing(container, effects@, camera_fb));
        }
    }

    /// Records one frame of the active camera: see [`frame`]. Nothing is
    /// recorded while there is no active camera.
    ///
    /// The scene is drawn onto the visible surface where the camera has no
    /// effects, and into the framebuffer of the camera where it has some;
    /// the effects then hand the picture on, and the last one draws it onto
    /// the visible surface. The entity of the active camera must have a
    /// camera and a transform.
    pub fn run(
        &self,
        gl: &mut GlQueue,
        container: &Container,
        transforms: &ComponentStore<Transform>,
        mesh_renderer: &ComponentStore<MeshRenderer>,
        camera: &ComponentStore<Camera>,
        active_camera: &ActiveCamera,
        point_lights: &ComponentStore<PointLight>,
        outliners: &ComponentStore<Outliner>,
    )
        requires
            self.wf(),
            transforms.wf(),
            mesh_renderer.wf(),
            point_lights.wf(),
            outliners.wf(),
            active_camera.entity matches Some(e) ==> camera@.contains_key(e)
                && transforms@.contains_key(e) && camera@[e].wf() && effects_wf(
                camera@[e].post_processing_effects@,
            ),
        ensures
            final(gl).last_name() == old(gl).last_name(),
            final(gl)@ == old(gl)@ + (match active_camera.entity {
                Some(e) => frame(
                    self.camera_matrices_ubo.id,
                    container,
                    Scene {
                        transforms: transforms@,
                        meshes: mesh_renderer@,
                        point_lights: point_lights@,
                        outliners: outliners@,
                    },
                    &camera@[e],
                    transforms@[e],
                ),
                None => Seq::empty(),
            }),
    {
        let ghost scene = Scene {
            transforms: transforms@,
            meshes: mesh_renderer@,
            point_lights: point_lights@,
            outliners: outliners@,
        };
        let (camera, cam_tr) = match active_camera.entity {
            Some(e) => match (camera.get(e), transforms.get(e)) {
                (Some(camera), Some(cam_tr)) => (camera, cam_tr),
                _ => {
                    proof {
                        assert(false);
                    }
                    return ;
                },
            },
            None => {
                proof {
                    assert(gl@ =~= old(gl)@ + Seq::<GlCommand>::empty());
                }
                return ;
            },
        };
        self.begin_frame(gl, camera, cam_tr);
        let ghost after_setup = gl@;

        let with_transform = transforms.entities();
        proof {
            lemma_ascending_below(transforms@.dom(), 0x1_0000_0000);
        }
        let visible = retain_present(&with_transform, mesh_renderer);
        proof {
            lemma_ascending_unique(visible@, scene.visible(), 0x1_0000_0000);
            assert forall|i: int| 0 <= i < visible@.len() implies transforms@.contains_key(
                #[trigger] visible@[i],
            ) && mesh_renderer@.contains_key(visible@[i]) by {
                assert(visible@.contains(visible@[i]));
                assert(with_transform@.contains(visible@[i]));
            }
        }
        Self::draw_meshes(
            gl,
            container,
            &visible,
            transforms,
            mesh_renderer,
            point_lights,
            outliners,
        );

        let ghost after_meshes = gl@;

        // Draw skybox
        Self::draw_skybox(gl, container, camera);

        // Draw outlined objects
        let ghost after_skybox = gl@;
        Self::begin_outlines(gl);
        let ghost after_outline_setup = gl@;
        let outlined = retain_present(&visible, outliners);
        proof {
            lemma_ascending_unique(outlined@, scene.outlined(), 0x1_0000_0000);
            assert forall|i: int| 0 <= i < outlined@.len() implies transforms@.contains_key(
                #[trigger] outlined@[i],
            ) && mesh_renderer@.contains_key(outlined@[i]) && outliners@.contains_key(
                outlined@[i],
            ) by {
                assert(outlined@.contains(outlined@[i]));
                assert(visible@.contains(outlined@[i]));
                assert(with_transform@.contains(outlined@[i]));
            }
        }
        Self::draw_outlines(
            gl,
            container,
            &outlined,
            transforms,
            mesh_renderer,
            point_lights,
            outliners,
        );
        let ghost after_outlines = gl@;
        Self::post_process(gl, container, camera);
        proof {
            let first = seq![
                GlCommand::BufferCameraData {
                    buffer: self.camera_matrices_ubo.id,
                    camera: camera_recipe(camera, *cam_tr),
                },
            ] + frame_setup(camera);
            let meshes = opaque_pass(container, scene, visible@, visible@.len() as int);
            let sky = skybox_pass(container, camera);
            let outlines = outline_pass(container, scene, outlined@, outlined@.len() as int);
            let effects = camera_effects(container, camera);
            assert(after_setup == old(gl)@ + first);
            assert(after_meshes == after_setup + meshes);
            assert(after_skybox == after_meshes + sky);
            assert(after_outline_setup == after_skybox + outline_setup());
            assert(after_outlines == after_outline_setup + outlines);
            assert(gl@ == after_outlines + effects);
            lemma_concat_six(old(gl)@, first, meshes, sky, outline_setup(), outlines, effects);
        }
    }

    /// Records the start of a frame: the camera matrices, the target and
    /// the state of the pipeline.
    fn begin_frame(&self, gl: &mut GlQueue, camera: &Camera, cam_tr: &Transform)
        requires
            self.wf(),
            camera.wf(),
        ensures
            final(gl).last_name() == old(gl).last_name(),
            final(gl)@ == old(gl)@ + (seq![
                GlCommand::BufferCameraData {
                    buffer: self.camera_matrices_ubo.id,
                    camera: camera_recipe(camera, *cam_tr),
                },
            ] + frame_setup(camera)),
    {
        let recipe = CameraRecipe {
            position: cam_tr.position,
            rotation: cam_tr.rotation,
            perspective: match camera.projection {
                Projection::Perspective(_) => true,
                Projection::Orthographic(_) => false,
            },
            extent: match camera.projection {
                Projection::Orthographic(size) => size,
                Projection::Perspective(fov) => fov,
            },
            aspect_ratio: camera.aspect_ratio,
            near_plane: camera.near_plane,
            far_plane: camera.far_plane,
        };
        {
            let camera_ubo_struct = CameraUBO { camera: recipe };
            self.camera_matrices_ubo.update(gl, &camera_ubo_struct);
        }

        // Post processing
        if camera.post_processing_effects.len() == 0 {
            FBO::bind_default(gl);
        } else {
            match &camera.fb {
                Some(fb) => fb.bind(gl),
                None => FBO::bind_default(gl),
            }
        }
        gl.push(
            GlCommand::Viewport { left: 0, bottom: 0, width: VIEWPORT_SIZE, height: VIEWPORT_SIZE },
        );
        gl.push(GlCommand::Enable { capability: Capability::DepthTest });
        gl.push(GlCommand::DepthFunc { comparison: Comparison::Less });
        gl.push(GlCommand::Enable { capability: Capability::StencilTest });
        gl.push(GlCommand::StencilMask { mask: 0xFF });
        match &camera.background {
            Background::Color(r, g, b) => {
                gl.push(
                    GlCommand::ClearColor {
                        red: *r,
                        green: *g,
                        blue: *b,
                        alpha: Real::from_bits(ONE_BITS),
                    },
                );
            },
            Background::Skybox(_) => {},
        }
        gl.push(GlCommand::Clear);
        gl.push(
            GlCommand::StencilFunc {
                comparison: Comparison::Always,
                reference: STENCIL_MARK,
                mask: 0xFF,
            },
        );
        proof {
            assert(gl@ =~= old(gl)@ + (seq![
                GlCommand::BufferCameraData {
                    buffer: self.camera_matrices_ubo.id,
                    camera: camera_recipe(camera, *cam_tr),
                },
            ] + frame_setup(camera)));
        }
    }

    /// Records the start of the outline pass.
    fn begin_outlines(gl: &mut GlQueue)
        ensures
            final(gl).last_name() == old(gl).last_name(),
            final(gl)@ == old(gl)@ + outline_setup(),
    {
        gl.push(
            GlCommand::StencilFunc {
                comparison: Comparison::NotEqual,
                reference: STENCIL_MARK,
                mask: 0xFF,
            },
        );
        gl.push(GlCommand::StencilMask { mask: 0x00 });
        gl.push(GlCommand::Disable { capability: Capability::DepthTest });
        proof {
            assert(gl@ =~= old(gl)@ + outline_setup());
        }
    }
}

/// Appending six lists one after the other appends their concatenation.
proof fn lemma_concat_six<A>(
    start: Seq<A>,
    a: Seq<A>,
    b: Seq<A>,
    c: Seq<A>,
    d: Seq<A>,
    e: Seq<A>,
    f: Seq<A>,
)
    ensures
        start + a + b + c + d + e + f == start + (a + b + c + d + e + f),
{
    assert(start + a + b + c + d + e + f =~= start + (a + b + c + d + e + f));
}

/// Whether none of `commands` changes the target of what is drawn.
pub open spec fn keeps_target(commands: Seq<GlCommand>) -> bool {
    forall|i: int| 0 <= i < commands.len() ==> !(#[trigger] commands[i] is BindFramebuffer)
}

proof fn lemma_keeps_target_concat(a: Seq<GlCommand>, b: Seq<GlCommand>)
    requires
        keeps_target(a),
        keeps_target(b),
    ensures
        keeps_target(a + b),
{
    assert forall|i: int| 0 <= i < (a + b).len() implies !(#[trigger] (a + b)[i]
        is BindFramebuffer) by {
        if i < a.len() {
            assert((a + b)[i] == a[i]);
        } else {
            assert((a + b)[i] == b[i - a.len()]);
        }
    }
}

proof fn lemma_offscreen_concat(a: Seq<GlCommand>, b: Seq<GlCommand>)
    ensures
        binds_offscreen(a + b) <==> binds_offscreen(a) || binds_offscreen(b),
        binds_screen(a + b) <==> binds_screen(a) || binds_screen(b),
{
    let screen = GlCommand::BindFramebuffer { framebuffer: 0 };
    if binds_screen(a + b) {
        let i = choose|i: int| 0 <= i < (a + b).len() && (a + b)[i] == screen;
        if i < a.len() {
            assert(a[i] == screen);
        } else {
            assert(b[i - a.len()] == screen);
        }
    }
    if binds_screen(a) {
        let i = choose|i: int| 0 <= i < a.len() && a[i] == screen;
        assert((a + b)[i] == screen);
    }
    if binds_screen(b) {
        let i = choose|i: int| 0 <= i < b.len() && b[i] == screen;
        assert((a + b)[i + a.len()] == screen);
    }
    if binds_offscreen(a + b) {
        let i = choose|i: int|
            0 <= i < (a + b).len() && (#[trigger] (a + b)[i] matches GlCommand::BindFramebuffer {
                framebuffer,
            } && framebuffer != 0);
        if i < a.len() {
            assert((a + b)[i] == a[i]);
        } else {
            assert((a + b)[i] == b[i - a.len()]);
        }
    }
    if binds_offscreen(a) {
        let i = choose|i: int|
            0 <= i < a.len() && (#[trigger] a[i] matches GlCommand::BindFramebuffer { framebuffer }
                && framebuffer != 0);
        assert((a + b)[i] == a[i]);
    }
    if binds_offscreen(b) {
        let i = choose|i: int|
            0 <= i < b.len() && (#[trigger] b[i] matches GlCommand::BindFramebuffer { framebuffer }
                && framebuffer != 0);
        assert((a + b)[i + a.len()] == b[i]);
    }
}

proof fn lemma_keeps_target_is_quiet(commands: Seq<GlCommand>)
    requires
        keeps_target(commands),
    ensures
        !binds_screen(commands),
        !binds_offscreen(commands),
{
    if binds_screen(commands) {
        let i = choose|i: int|
            0 <= i < commands.len() && commands[i] == (GlCommand::BindFramebuffer {
                framebuffer: 0,
            });
        assert(commands[i] is BindFramebuffer);
    }
}

/// Binding a material or the lights does not change the target.
proof fn lemma_material_keeps_target(
    container: &Container,
    scene: Scene,
    entity: u32,
)
    ensures
        keeps_target(opaque_commands(container, scene, entity)),
        keeps_target(outline_commands(container, scene, entity)),
{
    let renderer = scene.meshes[entity];
    let data = renderer.material.shader_data;
    let program = container.diffuse_shader.program.id;
    let diffuse = crate::shaders::diffuse::channel_binding(
        program,
        data.diffuse,
        0,
        "material.diffuse_texture",
        "material.diffuse_color",
        "material.using_diffuse_texture",
    );
    let specular = crate::shaders::diffuse::channel_binding(
        program,
        data.specular,
        1,
        "material.specular_texture",
        "material.specular_color",
        "material.using_specular_texture",
    );
    let normal = crate::shaders::diffuse::normal_binding(program, data.normal);
    let model = container.diffuse_shader.spec_bind_model(scene.transforms[entity].model_matrix);
    assert(keeps_target(model));
    assert(keeps_target(diffuse));
    assert(keeps_target(specular));
    assert(keeps_target(normal));
    let shininess = GlCommand::SetUniform {
        program,
        name: "material.shininess",
        value: UniformValue::Scalar(data.shininess),
    };
    assert(keeps_target(normal.push(shininess)));
    lemma_keeps_target_concat(model, diffuse);
    lemma_keeps_target_concat(model + diffuse, specular);
    lemma_keeps_target_concat(model + diffuse + specular, normal.push(shininess));
    let bound = data.spec_bind_model(container, scene.transforms[entity].model_matrix);
    assert(bound == model + diffuse + specular + normal.push(shininess));
    let lights = data.spec_bind_lights(container, scene.transforms, scene.point_lights);
    assert(keeps_target(lights));
    let first = seq![GlCommand::BindVertexArray { vertex_array: renderer.mesh.vao.id }];
    let stencil = stencil_writing(scene.outliners.contains_key(entity));
    let draw = seq![GlCommand::DrawElements { indices: renderer.mesh.indices@.len() as usize }];
    assert(keeps_target(first));
    assert(keeps_target(stencil));
    assert(keeps_target(draw));
    lemma_keeps_target_concat(first, bound);
    lemma_keeps_target_concat(first + bound, lights);
    lemma_keeps_target_concat(first + bound + lights, stencil);
    lemma_keeps_target_concat(first + bound + lights + stencil, draw);
    assert(keeps_target(outline_commands(container, scene, entity)));
}

proof fn lemma_passes_keep_target(container: &Container, scene: Scene, entities: Seq<u32>, n: int)
    ensures
        keeps_target(opaque_pass(container, scene, entities, n)),
        keeps_target(outline_pass(container, scene, entities, n)),
    decreases n,
{
    if n > 0 {
        lemma_passes_keep_target(container, scene, entities, n - 1);
        lemma_material_keeps_target(container, scene, entities[n - 1]);
        lemma_keeps_target_concat(
            opaque_pass(container, scene, entities, n - 1),
            opaque_commands(container, scene, entities[n - 1]),
        );
        lemma_keeps_target_concat(
            outline_pass(container, scene, entities, n - 1),
            outline_commands(container, scene, entities[n - 1]),
        );
    }
}

/// What the commands of one effect do to the target, and which picture
/// they read.
///
/// `apply` draws into the framebuffer that it hands out and never onto the
/// visible surface; `apply_to_screen` draws onto the visible surface; both
/// read the colour texture of their input.
pub proof fn law_effect_targets(effect: Effect, container: &Container, input: &FBO)
    requires
        effect.wf(),
    ensures
        !binds_screen(effect.spec_apply(container, input)),
        effect.spec_apply(container, input).contains(
            GlCommand::BindFramebuffer { framebuffer: effect.spec_output().id },
        ),
        binds_screen(effect.spec_apply_to_screen(container, input)),
        effect.spec_apply(container, input).contains(
            GlCommand::BindTexture {
                target: TextureTarget::Texture2D,
                texture: input.color_texture.id,
            },
        ),
        effect.spec_apply_to_screen(container, input).contains(
            GlCommand::BindTexture {
                target: TextureTarget::Texture2D,
                texture: input.color_texture.id,
            },
        ),
{
    let screen = GlCommand::BindFramebuffer { framebuffer: 0 };
    let reads = GlCommand::BindTexture {
        target: TextureTarget::Texture2D,
        texture: input.color_texture.id,
    };
    match effect {
        Effect::Kernel(kernel) => {
            let draw = kernel.spec_draw(container, input);
            assert(draw.len() == 11);
            assert(draw[4] == reads);
            assert(keeps_target(draw));
            lemma_keeps_target_is_quiet(draw);
            let to_own = seq![GlCommand::BindFramebuffer { framebuffer: kernel.fb.id }];
            let to_screen = seq![screen];
            assert(!binds_screen(to_own)) by {
                if binds_screen(to_own) {
                    let i = choose|i: int| 0 <= i < to_own.len() && to_own[i] == screen;
                }
            }
            lemma_offscreen_concat(to_own, draw);
            assert((to_own + draw)[0] == to_own[0]);
            assert((to_own + draw)[5] == draw[4]);
            assert((to_screen + draw)[0] == screen);
            assert((to_screen + draw)[5] == draw[4]);
        },
        Effect::GaussianBlur(blur) => {
            let own = blur.spec_draw(container, input, blur.h_pass.id);
            let shown = blur.spec_draw(container, input, 0);
            let first = blur.spec_pass(container, input.color_texture.id, true, blur.v_pass.id);
            let second_own = blur.spec_pass(
                container,
                blur.v_pass.color_texture.id,
                false,
                blur.h_pass.id,
            );
            let second_shown = blur.spec_pass(container, blur.v_pass.color_texture.id, false, 0);
            assert(first.len() == 13);
            assert(second_own.len() == 13);
            assert(second_shown.len() == 13);
            assert(first[2] == reads);
            assert(own[2] == first[2]);
            assert(shown[2] == first[2]);
            assert(second_own[8] == (GlCommand::BindFramebuffer { framebuffer: blur.h_pass.id }));
            assert(own[21] == second_own[8]);
            assert(second_shown[8] == screen);
            assert(shown[21] == second_shown[8]);
            assert(!binds_screen(first)) by {
                if binds_screen(first) {
                    let i = choose|i: int| 0 <= i < first.len() && first[i] == screen;
                    assert(first[8] == (GlCommand::BindFramebuffer {
                        framebuffer: blur.v_pass.id,
                    }));
                }
            }
            assert(!binds_screen(second_own)) by {
                if binds_screen(second_own) {
                    let i = choose|i: int| 0 <= i < second_own.len() && second_own[i] == screen;
                }
            }
            lemma_offscreen_concat(first, second_own);
        },
    }
}

/// The effects before the last one never draw onto the visible surface.
pub proof fn law_chain_stays_offscreen(
    container: &Container,
    effects: Seq<Effect>,
    camera_fb: &FBO,
    n: int,
)
    requires
        effects_wf(effects),
        0 <= n <= effects.len(),
    ensures
        !binds_screen(chain_commands(container, effects, camera_fb, n)),
    decreases n,
{
    if n > 0 {
        law_chain_stays_offscreen(container, effects, camera_fb, n - 1);
        law_effect_targets(effects[n - 1], container, chain_input(effects, camera_fb, n - 1));
        lemma_offscreen_concat(
            chain_commands(container, effects, camera_fb, n - 1),
            effects[n - 1].spec_apply(container, chain_input(effects, camera_fb, n - 1)),
        );
    } else {
        assert(!binds_screen(Seq::<GlCommand>::empty()));
    }
}

/// Every effect but the first reads the picture that the effect before it
/// drew: it samples the colour texture of the framebuffer that the effect
/// before it made its target. Only the last effect draws onto the visible
/// surface.
pub proof fn law_chain_routes_pictures(
    container: &Container,
    effects: Seq<Effect>,
    camera_fb: &FBO,
    i: int,
)
    requires
        effects_wf(effects),
        0 < i < effects.len(),
    ensures
        chain_input(effects, camera_fb, i) == effects[i - 1].spec_output(),
        effects[i - 1].spec_apply(container, chain_input(effects, camera_fb, i - 1)).contains(
            GlCommand::BindFramebuffer { framebuffer: chain_input(effects, camera_fb, i).id },
        ),
        effects[i].spec_apply(container, chain_input(effects, camera_fb, i)).contains(
            GlCommand::BindTexture {
                target: TextureTarget::Texture2D,
                texture: effects[i - 1].spec_output().color_texture.id,
            },
        ),
        effects[i].spec_apply_to_screen(container, chain_input(effects, camera_fb, i)).contains(
            GlCommand::BindTexture {
                target: TextureTarget::Texture2D,
                texture: effects[i - 1].spec_output().color_texture.id,
            },
        ),
        !binds_screen(chain_commands(container, effects, camera_fb, effects.len() - 1)),
        binds_screen(post_processing(container, effects, camera_fb)),
{
    law_effect_targets(effects[i - 1], container, chain_input(effects, camera_fb, i - 1));
    law_effect_targets(effects[i], container, chain_input(effects, camera_fb, i));
    law_chain_stays_offscreen(container, effects, camera_fb, effects.len() - 1);
    let last = effects.len() - 1;
    law_effect_targets(effects[last], container, chain_input(effects, camera_fb, last));
    lemma_offscreen_concat(
        chain_commands(container, effects, camera_fb, last),
        effects[last].spec_apply_to_screen(container, chain_input(effects, camera_fb, last)),
    );
}

/// The frame of a camera without effects never makes an offscreen
/// framebuffer its target: it draws onto the visible surface from the
/// start, and the chain of effects is empty.
pub proof fn law_no_effects_no_offscreen_target(
    ubo: u32,
    container: &Container,
    scene: Scene,
    camera: &Camera,
    transform: Transform,
)
    requires
        camera.post_processing_effects@.len() == 0,
    ensures
        !binds_offscreen(frame(ubo, container, scene, camera, transform)),
        camera_effects(container, camera) == Seq::<GlCommand>::empty(),
{
    let first = seq![
        GlCommand::BufferCameraData { buffer: ubo, camera: camera_recipe(camera, transform) },
    ] + frame_setup(camera);
    let visible = ascending(scene.visible());
    let outlined = ascending(scene.outlined());
    let meshes = opaque_pass(container, scene, visible, visible.len() as int);
    let sky = skybox_pass(container, camera);
    let outlines = outline_pass(container, scene, outlined, outlined.len() as int);
    let effects = camera_effects(container, camera);
    lemma_passes_keep_target(container, scene, visible, visible.len() as int);
    lemma_passes_keep_target(container, scene, outlined, outlined.len() as int);
    lemma_keeps_target_is_quiet(meshes);
    lemma_keeps_target_is_quiet(outlines);
    assert(keeps_target(sky));
    lemma_keeps_target_is_quiet(sky);
    assert(keeps_target(outline_setup()));
    lemma_keeps_target_is_quiet(outline_setup());
    assert(!binds_offscreen(effects));
    assert(!binds_offscreen(first)) by {
        if binds_offscreen(first) {
            let i = choose|i: int|
                0 <= i < first.len() && (#[trigger] first[i] matches GlCommand::BindFramebuffer {
                    framebuffer,
                } && framebuffer != 0);
            assert(first[1] == (GlCommand::BindFramebuffer { framebuffer: 0 }));
        }
    }
    lemma_offscreen_concat(first, meshes);
    lemma_offscreen_concat(first + meshes, sky);
    lemma_offscreen_concat(first + meshes + sky, outline_setup());
    lemma_offscreen_concat(first + meshes + sky + outline_setup(), outlines);
    lemma_offscreen_concat(first + meshes + sky + outline_setup() + outlines, effects);
}

} // verus!
