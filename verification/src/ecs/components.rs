//! The components that entities are made of.

use crate::gl_wrapper::fbo::{DepthStencilTarget, FBO};
use crate::gl_wrapper::rbo::RBO;
use crate::gl_wrapper::texture_2d::Texture2D;
use crate::gl_wrapper::texture_cube_map::TextureCubeMap;
use crate::gl_wrapper::vao::VAO;
use crate::gl_wrapper::{GlCommand, GlQueue, TextureFormat};
use crate::math::{Mat3, Mat4, Real, Vec3, ONE_BITS, ZERO_BITS};
use crate::post_processing_effects::Effect;
use crate::shaders::diffuse::DiffuseData;
use std::sync::Arc;
use vstd::prelude::*;

verus! {

/// Where an entity is, how it is turned and how large it is, and the model
/// matrix that follows from the three.
///
/// Gameplay code sets `position`, `rotation` (angles in radians about the
/// x, y and z axes) and `scale`. `model_matrix` is derived: the transform
/// system renews it once per frame for the entities whose transform
/// changed, and nobody else writes it.
#[derive(Clone, Copy, Debug, PartialEq, Eq)]
pub struct Transform {
    pub position: Vec3,
    pub rotation: Vec3,
    pub scale: Vec3,
    pub model_matrix: Mat4,
}

impl Transform {
    /// The transform of an entity at the origin, not turned, of unit scale.
    pub open spec fn spec_default() -> Transform {
        Transform {
            position: Vec3 {
                x: Real { bits: ZERO_BITS },
                y: Real { bits: ZERO_BITS },
                z: Real { bits: ZERO_BITS },
            },
            rotation: Vec3 {
                x: Real { bits: ZERO_BITS },
                y: Real { bits: ZERO_BITS },
                z: Real { bits: ZERO_BITS },
            },
            scale: Vec3 {
                x: Real { bits: ONE_BITS },
                y: Real { bits: ONE_BITS },
                z: Real { bits: ONE_BITS },
            },
            model_matrix: Mat4::spec_identity(),
        }
    }

    /// This transform with another model matrix.
    pub open spec fn with_model_matrix(self, model_matrix: Mat4) -> Transform {
        Transform { model_matrix, ..self }
    }

    /// This transform at another place and turned another way.
    pub open spec fn with_pose(self, position: Vec3, rotation: Vec3) -> Transform {
        Transform { position, rotation, ..self }
    }
}

impl Default for Transform {
    fn default() -> (transform: Transform)
        ensures
            transform == Transform::spec_default(),
    {
        let zero = Real::zero();
        let one = Real::one();
        Transform {
            position: Vec3 { x: zero, y: zero, z: zero },
            rotation: Vec3 { x: zero, y: zero, z: zero },
            scale: Vec3 { x: one, y: one, z: one },
            model_matrix: Mat4::identity(),
        }
    }
}

/// The geometry of a mesh: its vertex array on the GPU, and the data that
/// the vertex array was filled with.
#[derive(Debug)]
pub struct Mesh {
    pub vao: VAO,
    pub positions: Vec<u32>,
    pub indices: Vec<u32>,
    pub normals: Vec<u32>,
    pub texcoords: Vec<u32>,
}

/// What a mesh is drawn with.
#[derive(Debug)]
pub struct Material {
    pub shader_data: DiffuseData,
}

/// Makes an entity visible. Meshes and materials are shared between the
/// entities that look alike.
#[derive(Debug, Clone)]
pub struct MeshRenderer {
    pub mesh: Arc<Mesh>,
    pub material: Arc<Material>,
}

/// How a surface answers a contact.
#[derive(Clone, Copy, Debug, PartialEq, Eq, Structural)]
pub struct BasicMaterial {
    pub restitution: Real,
    pub friction: Real,
}

/// A collider in the shape of a box.
#[derive(Clone, Copy, Debug, PartialEq, Eq, Structural)]
pub struct BoxCollider {
    pub box_size: Vec3,
    pub material: BasicMaterial,
}

/// How the simulation moves a body.
#[derive(Clone, Copy, Debug, PartialEq, Eq, Structural)]
pub enum BodyStatus {
    /// The body never moves.
    Static,
    /// Forces move the body.
    Dynamic,
    /// The body moves at its velocity, whatever acts on it.
    Kinematic,
}

/// The linear and the angular velocity of a body.
#[derive(Clone, Copy, Debug, PartialEq, Eq, Structural)]
pub struct Velocity3 {
    pub linear: Vec3,
    pub angular: Vec3,
}

/// Bit pattern of the energy below which a body falls asleep unless told
/// otherwise: one hundredth.
pub const DEFAULT_SLEEP_THRESHOLD_BITS: u32 = 0x3C23_D70A;

/// A body of the physics simulation, as gameplay code describes it. The
/// simulation mirrors these fields; it never writes them.
#[derive(Clone, Debug, PartialEq, Eq)]
pub struct RigidBody {
    pub name: String,
    pub gravity_enabled: bool,
    pub status: BodyStatus,
    pub velocity: Velocity3,
    pub angular_inertia: Mat3,
    pub mass: Real,
    pub local_center_of_mass: Vec3,
    pub sleep_threshold: Option<Real>,
    /// The axes along which the body is moved by its velocity alone.
    pub kinematic_translations: [bool; 3],
    /// The axes about which the body is turned by its velocity alone.
    pub kinematic_rotations: [bool; 3],
}

impl RigidBody {
    /// Whether the body is the one that `default` makes, but for its name.
    pub open spec fn is_default(self) -> bool {
        &&& self.gravity_enabled
        &&& self.status == BodyStatus::Dynamic
        &&& self.velocity == (Velocity3 {
            linear: Vec3 {
                x: Real { bits: ZERO_BITS },
                y: Real { bits: ZERO_BITS },
                z: Real { bits: ZERO_BITS },
            },
            angular: Vec3 {
                x: Real { bits: ZERO_BITS },
                y: Real { bits: ZERO_BITS },
                z: Real { bits: ZERO_BITS },
            },
        })
        &&& self.angular_inertia == Mat3::spec_zeros()
        &&& self.mass == (Real { bits: ZERO_BITS })
        &&& self.local_center_of_mass == (Vec3 {
            x: Real { bits: ZERO_BITS },
            y: Real { bits: ZERO_BITS },
            z: Real { bits: ZERO_BITS },
        })
        &&& self.sleep_threshold == Some(Real { bits: DEFAULT_SLEEP_THRESHOLD_BITS })
        &&& self.kinematic_translations@ == seq![false, false, false]
        &&& self.kinematic_rotations@ == seq![false, false, false]
    }
}

impl Default for RigidBody {
    /// A dynamic body without a name, at rest, without mass, under gravity,
    /// free on every axis, that falls asleep at the usual threshold.
    fn default() -> (body: RigidBody)
        ensures
            body.is_default(),
            body.name@ == Seq::<char>::empty(),
    {
        let zero = Real::zero();
        let zeros = Vec3 { x: zero, y: zero, z: zero };
        let body = RigidBody {
            name: String::new(),
            gravity_enabled: true,
            status: BodyStatus::Dynamic,
            velocity: Velocity3 { linear: zeros, angular: zeros },
            angular_inertia: Mat3::zeros(),
            mass: zero,
            local_center_of_mass: zeros,
            sleep_threshold: Some(Real::from_bits(DEFAULT_SLEEP_THRESHOLD_BITS)),
            kinematic_translations: [false, false, false],
            kinematic_rotations: [false, false, false],
        };
        proof {
            assert(body.kinematic_translations@ =~= seq![false, false, false]);
            assert(body.kinematic_rotations@ =~= seq![false, false, false]);
        }
        body
    }
}

/// The shapes that a collider can have.
#[derive(Clone, Copy, Debug, PartialEq, Eq, Structural)]
pub enum Shape {
    /// A box, given by half its size along each axis.
    Cuboid(Vec3),
    /// A ball, given by its radius.
    Ball(Real),
}

/// A shape with a surface. The physics synchronisation attaches it to the
/// body of its entity, or to the ground where the entity has no body.
#[derive(Clone, Copy, Debug, PartialEq, Eq, Structural)]
pub struct Collider {
    pub shape: Shape,
    pub material: BasicMaterial,
}

/// What a camera shows where nothing is drawn.
#[derive(Debug)]
pub enum Background {
    /// A colour, by its red, green and blue parts.
    Color(Real, Real, Real),
    Skybox(Arc<TextureCubeMap>),
}

/// How a camera projects the scene.
#[derive(Clone, Copy, Debug, PartialEq, Eq, Structural)]
pub enum Projection {
    /// Parallel projection; the value is half the height of what is seen.
    Orthographic(Real),
    /// Perspective projection; the value is the field of view in radians.
    Perspective(Real),
}

/// A camera: how it projects, what it shows behind the scene, the effects
/// that its picture goes through, and the offscreen framebuffer that the
/// scene is drawn into where there are effects. A camera without effects
/// draws onto the visible surface and has no framebuffer of its own.
#[derive(Debug)]
pub struct Camera {
    pub projection: Projection,
    pub aspect_ratio: Real,
    pub near_plane: Real,
    pub far_plane: Real,
    pub background: Background,
    pub post_processing_effects: Vec<Effect>,
    pub fb: Option<FBO>,
}

/// Width of the offscreen picture of a camera.
pub const CAMERA_WIDTH: u32 = 1920;

/// Height of the offscreen picture of a camera.
pub const CAMERA_HEIGHT: u32 = 1080;

/// The commands that create an offscreen framebuffer of `width` by `height`
/// texels in a queue whose last name is `last_name`: a colour texture under
/// the next name, a depth and stencil renderbuffer under the one after it,
/// and the framebuffer under the third.
pub open spec fn offscreen_target_creation(last_name: u32, width: u32, height: u32) -> Seq<
    GlCommand,
> {
    let texture = (last_name + 1) as u32;
    let renderbuffer = (last_name + 2) as u32;
    let framebuffer = (last_name + 3) as u32;
    Texture2D::creation(texture) + seq![
        GlCommand::TextureStorage2D {
            texture,
            levels: 1,
            format: TextureFormat::RGBA,
            width,
            height,
        },
        GlCommand::CreateRenderbuffer { renderbuffer },
        GlCommand::RenderbufferDepthStencil {
            renderbuffer,
            width: width as i32,
            height: height as i32,
        },
    ] + FBO::creation(framebuffer, texture, DepthStencilTarget::RBO(RBO { id: renderbuffer }))
}

/// An offscreen framebuffer of `width` by `height` texels with a colour
/// texture and a depth and stencil renderbuffer of its own.
pub fn offscreen_target(gl: &mut GlQueue, width: u32, height: u32) -> (fb: FBO)
    requires
        old(gl).has_names(3),
        width <= i32::MAX,
        height <= i32::MAX,
    ensures
        fb.id == old(gl).last_name() + 3,
        fb.color_texture.id == old(gl).last_name() + 1,
        final(gl).last_name() == fb.id,
        final(gl)@ == old(gl)@ + offscreen_target_creation(old(gl).last_name(), width, height),
{
    let mut color_texture = Texture2D::new(gl);
    color_texture.allocate(gl, TextureFormat::RGBA, width, height, 1);
    let depth_stencil_rb = RBO::new(gl);
    depth_stencil_rb.create_depth_stencil(gl, width as i32, height as i32);
    let fb = FBO::new(gl, color_texture, DepthStencilTarget::RBO(depth_stencil_rb));
    proof {
        assert(gl@ =~= old(gl)@ + offscreen_target_creation(old(gl).last_name(), width, height));
    }
    fb
}

impl Camera {
    /// The invariant of a camera: where its picture goes through effects,
    /// it has an offscreen framebuffer of its own to draw the scene into,
    /// and that framebuffer is not the visible surface.
    pub open spec fn wf(&self) -> bool {
        self.post_processing_effects@.len() > 0 ==> (self.fb matches Some(fb) && fb.id != 0)
    }

    /// Whether the camera keeps its invariant.
    pub fn ready(&self) -> (ok: bool)
        ensures
            ok == self.wf(),
    {
        if self.post_processing_effects.len() == 0 {
            return true;
        }
        match &self.fb {
            Some(fb) => fb.id != 0,
            None => false,
        }
    }

    /// A camera with the given settings.
    ///
    /// Where the list of effects is empty, nothing is recorded and no name
    /// is taken: the camera has no framebuffer. Where it is not, the camera
    /// gets an offscreen framebuffer of its own, for which the queue must
    /// have three names left.
    pub fn new(
        gl: &mut GlQueue,
        projection: Projection,
        aspect_ratio: Real,
        near_plane: Real,
        far_plane: Real,
        background: Background,
        post_processing_effects: Vec<Effect>,
    ) -> (camera: Camera)
        requires
            post_processing_effects@.len() > 0 ==> old(gl).has_names(3),
        ensures
            camera.wf(),
            camera.projection == projection,
            camera.aspect_ratio == aspect_ratio,
            camera.near_plane == near_plane,
            camera.far_plane == far_plane,
            camera.background == background,
            camera.post_processing_effects == post_processing_effects,
            post_processing_effects@.len() == 0 ==> {
                &&& camera.fb is None
                &&& final(gl)@ == old(gl)@
                &&& final(gl).last_name() == old(gl).last_name()
            },
            post_processing_effects@.len() > 0 ==> {
                &&& camera.fb matches Some(fb) && fb.id == old(gl).last_name() + 3
                    && fb.color_texture.id == old(gl).last_name() + 1
                &&& final(gl).last_name() == old(gl).last_name() + 3
                &&& final(gl)@ == old(gl)@ + offscreen_target_creation(
                    old(gl).last_name(),
                    CAMERA_WIDTH,
                    CAMERA_HEIGHT,
                )
            },
    {
        let fb = if post_processing_effects.len() == 0 {
            None
        } else {
            Some(offscreen_target(gl, CAMERA_WIDTH, CAMERA_HEIGHT))
        };
        Camera {
            projection,
            aspect_ratio,
            near_plane,
            far_plane,
            background,
            post_processing_effects,
            fb,
        }
    }
}

/// A light that shines along a direction from far away.
#[derive(Clone, Copy, Debug, PartialEq, Eq, Structural)]
pub struct DirLight {
    pub color: Vec3,
    pub range: Real,
    pub intensity: Real,
    pub direction: Vec3,
}

/// A light that shines from the place of its entity in every direction.
#[derive(Clone, Copy, Debug, PartialEq, Eq, Structural)]
pub struct PointLight {
    pub color: Vec3,
    pub range: Real,
    pub intensity: Real,
}

/// A light that shines from the place of its entity in a cone.
#[derive(Clone, Copy, Debug, PartialEq, Eq, Structural)]
pub struct Spotlight {
    pub color: Vec3,
    pub range: Real,
    pub intensity: Real,
}

/// Marks the entity that input moves.
#[derive(Clone, Copy, Debug, PartialEq, Eq, Structural, Default)]
pub struct Input;

/// Makes the renderer draw an outline around the mesh of the entity: the
/// mesh once more, `scale` times as large, in the colour `color`, where the
/// mesh itself was not drawn.
#[derive(Clone, Copy, Debug, PartialEq, Eq, Structural)]
pub struct Outliner {
    pub scale: Real,
    pub color: Vec3,
}

} // verus!
