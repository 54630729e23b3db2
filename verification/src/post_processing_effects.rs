//! Effects that the picture of a camera goes through before it is shown.
//!
//! An effect reads the colour texture of a framebuffer and draws a changed
//! picture. `apply` draws into a framebuffer of the effect's own and hands
//! it out, so that the next effect can read it; `apply_to_screen` draws
//! onto the visible surface.

use crate::containers::Container;
use crate::ecs::components::{offscreen_target, offscreen_target_creation};
use crate::gl_wrapper::fbo::FBO;
use crate::gl_wrapper::{share, Capability, GlCommand, GlQueue};
use crate::math::{Real, HALF_BITS, ONE_BITS};
use crate::shaders::post_processing::{
    is_odd_square, is_odd_square_of, kernel_side, screen_texture_binding, square,
};
use crate::shapes::QUAD_VERTICES;
use std::sync::Arc;
use vstd::prelude::*;

verus! {

/// Side of the square picture that an effect draws.
pub const EFFECT_SIZE: u32 = 800;

/// The commands that clear the target to the colour that shows where an
/// effect failed to draw.
pub open spec fn clear_target() -> Seq<GlCommand> {
    seq![
        GlCommand::ClearColor {
            red: Real { bits: ONE_BITS },
            green: Real { bits: HALF_BITS },
            blue: Real { bits: ONE_BITS },
            alpha: Real { bits: ONE_BITS },
        },
        GlCommand::Clear,
    ]
}

/// The commands that draw the quad `quad` over the whole target, whatever
/// the depth buffer holds.
pub open spec fn draw_quad(quad: u32) -> Seq<GlCommand> {
    seq![
        GlCommand::BindVertexArray { vertex_array: quad },
        GlCommand::Disable { capability: Capability::DepthTest },
        GlCommand::DrawArrays { first: 0, vertices: QUAD_VERTICES },
    ]
}

/// Whether one of `commands` makes the visible surface the target.
pub open spec fn binds_screen(commands: Seq<GlCommand>) -> bool {
    commands.contains(GlCommand::BindFramebuffer { framebuffer: 0 })
}

/// Whether one of `commands` makes an offscreen framebuffer the target.
pub open spec fn binds_offscreen(commands: Seq<GlCommand>) -> bool {
    exists|i: int|
        0 <= i < commands.len() && (#[trigger] commands[i] matches GlCommand::BindFramebuffer {
            framebuffer,
        } && framebuffer != 0)
}

/// A post-processing effect.
pub trait PPEffect {
    /// The invariant of the effect.
    spec fn wf(&self) -> bool;

    /// The framebuffer that `apply` draws into.
    spec fn spec_output(&self) -> &FBO;

    /// The commands of `apply`.
    spec fn spec_apply(&self, container: &Container, input: &FBO) -> Seq<GlCommand>;

    /// The commands of `apply_to_screen`.
    spec fn spec_apply_to_screen(&self, container: &Container, input: &FBO) -> Seq<GlCommand>;

    /// Whether the effect keeps its invariant.
    fn ready(&self) -> (ok: bool)
        ensures
            ok == self.wf(),
    ;

    /// Draws the picture of `input`, changed, into the framebuffer of the
    /// effect, and hands that framebuffer out.
    fn apply(&self, container: &Container, gl: &mut GlQueue, input: &FBO) -> (output: &FBO)
        requires
            self.wf(),
        ensures
            output == self.spec_output(),
            final(gl).last_name() == old(gl).last_name(),
            final(gl)@ == old(gl)@ + self.spec_apply(container, input),
    ;

    /// Draws the picture of `input`, changed, onto the visible surface.
    fn apply_to_screen(&self, container: &Container, gl: &mut GlQueue, input: &FBO)
        requires
            self.wf(),
        ensures
            final(gl).last_name() == old(gl).last_name(),
            final(gl)@ == old(gl)@ + self.spec_apply_to_screen(container, input),
    ;
}

/// Convolution of the picture with a square kernel.
#[derive(Debug)]
pub struct Kernel {
    pub kernel: Arc<Vec<u32>>,
    pub side: i32,
    pub fb: FBO,
}

impl Kernel {
    /// The commands that draw the convolved picture of `input` into the
    /// bound target.
    pub open spec fn spec_draw(&self, container: &Container, input: &FBO) -> Seq<GlCommand> {
        clear_target() + screen_texture_binding(
            container.kernel_shader.program.id,
            input.color_texture.id,
        ) + container.kernel_shader.spec_bind_kernel(self.kernel, self.side) + draw_quad(
            container.predefined_shapes.unit_quad.id,
        )
    }

    /// An effect that convolves with `kernel`: the weights of a square with
    /// an odd side, row after row.
    pub fn new(gl: &mut GlQueue, kernel: Vec<u32>) -> (effect: Kernel)
        requires
            old(gl).has_names(3),
            is_odd_square(kernel@.len() as int),
            kernel@.len() <= i32::MAX,
        ensures
            effect.wf(),
            *effect.kernel == kernel,
            effect.fb.id == old(gl).last_name() + 3,
            effect.fb.color_texture.id == old(gl).last_name() + 1,
            final(gl).last_name() == effect.fb.id,
            final(gl)@ == old(gl)@ + offscreen_target_creation(
                old(gl).last_name(),
                EFFECT_SIZE,
                EFFECT_SIZE,
            ),
    {
        let side = match kernel_side(kernel.len()) {
            Some(side) => side,
            None => 1,
        };
        proof {
            assert(side <= square(side as int)) by (nonlinear_arith)
                requires
                    side >= 1,
                    square(side as int) == side * side,
            ;
        }
        let fb = offscreen_target(gl, EFFECT_SIZE, EFFECT_SIZE);
        Kernel { kernel: Arc::new(kernel), side: side as i32, fb }
    }

    /// Draws the convolved picture of `input` into the bound target.
    fn _apply(&self, container: &Container, gl: &mut GlQueue, input: &FBO)
        requires
            self.wf(),
        ensures
            final(gl).last_name() == old(gl).last_name(),
            final(gl)@ == old(gl)@ + self.spec_draw(container, input),
    {
        gl.push(
            GlCommand::ClearColor {
                red: Real::from_bits(ONE_BITS),
                green: Real::from_bits(HALF_BITS),
                blue: Real::from_bits(ONE_BITS),
                alpha: Real::from_bits(ONE_BITS),
            },
        );
        gl.push(GlCommand::Clear);
        let pp_shader = &container.kernel_shader;
        let quad_vao = &container.predefined_shapes.unit_quad;
        pp_shader.bind_screen_texture(gl, &input.color_texture);
        pp_shader.bind_kernel(gl, share(&self.kernel), self.side);
        quad_vao.bind(gl);
        gl.push(GlCommand::Disable { capability: Capability::DepthTest });
        gl.push(GlCommand::DrawArrays { first: 0, vertices: QUAD_VERTICES });
        proof {
            assert(gl@ =~= old(gl)@ + self.spec_draw(container, input));
        }
    }
}

impl PPEffect for Kernel {
    open spec fn wf(&self) -> bool {
        &&& self.fb.id != 0
        &&& is_odd_square_of(self.kernel@.len() as int, self.side as int)
    }

    open spec fn spec_output(&self) -> &FBO {
        &self.fb
    }

    open spec fn spec_apply(&self, container: &Container, input: &FBO) -> Seq<GlCommand> {
        seq![GlCommand::BindFramebuffer { framebuffer: self.fb.id }] + self.spec_draw(
            container,
            input,
        )
    }

    open spec fn spec_apply_to_screen(&self, container: &Container, input: &FBO) -> Seq<GlCommand> {
        seq![GlCommand::BindFramebuffer { framebuffer: 0 }] + self.spec_draw(container, input)
    }

    fn ready(&self) -> (ok: bool) {
        if self.fb.id == 0 || self.side <= 0 || self.side % 2 != 1 {
            return false;
        }
        assert((self.side as u128) * (self.side as u128) <= u128::MAX) by (nonlinear_arith)
            requires
                0 < self.side <= 0x7FFF_FFFF,
        ;
        let product: u128 = (self.side as u128) * (self.side as u128);
        assert(product == square(self.side as int));
        product == self.kernel.len() as u128
    }

    fn apply(&self, container: &Container, gl: &mut GlQueue, input: &FBO) -> (output: &FBO) {
        self.fb.bind(gl);
        self._apply(container, gl, input);
        proof {
            assert(gl@ =~= old(gl)@ + self.spec_apply(container, input));
        }
        &self.fb
    }

    fn apply_to_screen(&self, container: &Container, gl: &mut GlQueue, input: &FBO) {
        FBO::bind_default(gl);
        self._apply(container, gl, input);
        proof {
            assert(gl@ =~= old(gl)@ + self.spec_apply_to_screen(container, input));
        }
    }
}

/// Gaussian blur in two passes: along the vertical axis into a framebuffer
/// of its own, then along the horizontal axis into the target.
#[derive(Debug)]
pub struct GaussianBlur {
    pub kernel: Arc<Vec<u32>>,
    pub v_pass: FBO,
    pub h_pass: FBO,
}

impl GaussianBlur {
    /// The commands of one pass: the picture `picture` blurred along one
    /// axis into the framebuffer `target`.
    pub open spec fn spec_pass(
        &self,
        container: &Container,
        picture: u32,
        vertical: bool,
        target: u32,
    ) -> Seq<GlCommand> {
        screen_texture_binding(container.gaussian_blur_shader.program.id, picture)
            + container.gaussian_blur_shader.spec_bind_kernel(self.kernel, vertical) + seq![
            GlCommand::BindVertexArray { vertex_array: container.predefined_shapes.unit_quad.id },
            GlCommand::BindFramebuffer { framebuffer: target },
        ] + clear_target() + seq![
            GlCommand::Disable { capability: Capability::DepthTest },
            GlCommand::DrawArrays { first: 0, vertices: QUAD_VERTICES },
        ]
    }

    /// The commands of both passes, the second one into `target`.
    pub open spec fn spec_draw(&self, container: &Container, input: &FBO, target: u32) -> Seq<
        GlCommand,
    > {
        self.spec_pass(container, input.color_texture.id, true, self.v_pass.id) + self.spec_pass(
            container,
            self.v_pass.color_texture.id,
            false,
            target,
        )
    }

    /// An effect that blurs with the row of weights `kernel`, whose length
    /// is odd.
    pub fn new(gl: &mut GlQueue, kernel: Vec<u32>) -> (effect: GaussianBlur)
        requires
            old(gl).has_names(6),
            kernel@.len() % 2 == 1,
            kernel@.len() <= i32::MAX,
        ensures
            effect.wf(),
            *effect.kernel == kernel,
            effect.v_pass.id == old(gl).last_name() + 3,
            effect.v_pass.color_texture.id == old(gl).last_name() + 1,
            effect.h_pass.id == old(gl).last_name() + 6,
            effect.h_pass.color_texture.id == old(gl).last_name() + 4,
            final(gl).last_name() == effect.h_pass.id,
            final(gl)@ == old(gl)@ + offscreen_target_creation(
                old(gl).last_name(),
                EFFECT_SIZE,
                EFFECT_SIZE,
            ) + offscreen_target_creation(
                (old(gl).last_name() + 3) as u32,
                EFFECT_SIZE,
                EFFECT_SIZE,
            ),
    {
        let v_pass = offscreen_target(gl, EFFECT_SIZE, EFFECT_SIZE);
        let h_pass = offscreen_target(gl, EFFECT_SIZE, EFFECT_SIZE);
        GaussianBlur { kernel: Arc::new(kernel), v_pass, h_pass }
    }

    /// Draws one pass.
    fn pass(&self, container: &Container, gl: &mut GlQueue, picture: &FBO, vertical: bool, target: u32)
        requires
            self.wf(),
        ensures
            final(gl).last_name() == old(gl).last_name(),
            final(gl)@ == old(gl)@ + self.spec_pass(
                container,
                picture.color_texture.id,
                vertical,
                target,
            ),
    {
        let pp_shader = &container.gaussian_blur_shader;
        let quad_vao = &container.predefined_shapes.unit_quad;
        pp_shader.bind_screen_texture(gl, &picture.color_texture);
        pp_shader.bind_kernel(gl, share(&self.kernel), vertical);
        quad_vao.bind(gl);
        gl.push(GlCommand::BindFramebuffer { framebuffer: target });
        gl.push(
            GlCommand::ClearColor {
                red: Real::from_bits(ONE_BITS),
                green: Real::from_bits(HALF_BITS),
                blue: Real::from_bits(ONE_BITS),
                alpha: Real::from_bits(ONE_BITS),
            },
        );
        gl.push(GlCommand::Clear);
        gl.push(GlCommand::Disable { capability: Capability::DepthTest });
        gl.push(GlCommand::DrawArrays { first: 0, vertices: QUAD_VERTICES });
        proof {
            assert(gl@ =~= old(gl)@ + self.spec_pass(
                container,
                picture.color_texture.id,
                vertical,
                target,
            ));
        }
    }

    /// Draws both passes, the second one onto the visible surface if
    /// `to_screen`, else into the framebuffer of the horizontal pass.
    fn _apply(&self, container: &Container, gl: &mut GlQueue, input: &FBO, to_screen: bool)
        requires
            self.wf(),
        ensures
            final(gl).last_name() == old(gl).last_name(),
            final(gl)@ == old(gl)@ + self.spec_draw(
                container,
                input,
                if to_screen {
                    0
                } else {
                    self.h_pass.id
                },
            ),
    {
        self.pass(container, gl, input, true, self.v_pass.id);
        let target = if to_screen { 0 } else { self.h_pass.id };
        self.pass(container, gl, &self.v_pass, false, target);
        proof {
            assert(gl@ =~= old(gl)@ + self.spec_draw(container, input, target));
        }
    }
}

impl PPEffect for GaussianBlur {
    open spec fn wf(&self) -> bool {
        &&& self.v_pass.id != 0
        &&& self.h_pass.id != 0
        &&& self.kernel@.len() % 2 == 1
        &&& self.kernel@.len() <= i32::MAX
    }

    open spec fn spec_output(&self) -> &FBO {
        &self.h_pass
    }

    open spec fn spec_apply(&self, container: &Container, input: &FBO) -> Seq<GlCommand> {
        self.spec_draw(container, input, self.h_pass.id)
    }

    open spec fn spec_apply_to_screen(&self, container: &Container, input: &FBO) -> Seq<GlCommand> {
        self.spec_draw(container, input, 0)
    }

    fn ready(&self) -> (ok: bool) {
        self.v_pass.id != 0 && self.h_pass.id != 0 && self.kernel.len() % 2 == 1
            && self.kernel.len() <= 0x7FFF_FFFF
    }

    fn apply(&self, container: &Container, gl: &mut GlQueue, input: &FBO) -> (output: &FBO) {
        self._apply(container, gl, input, false);
        &self.h_pass
    }

    fn apply_to_screen(&self, container: &Container, gl: &mut GlQueue, input: &FBO) {
        self._apply(container, gl, input, true);
    }
}

/// The effects that a camera can have.
#[derive(Debug)]
pub enum Effect {
    Kernel(Kernel),
    GaussianBlur(GaussianBlur),
}

impl PPEffect for Effect {
    open spec fn wf(&self) -> bool {
        match self {
            Effect::Kernel(effect) => effect.wf(),
            Effect::GaussianBlur(effect) => effect.wf(),
        }
    }

    open spec fn spec_output(&self) -> &FBO {
        match self {
            Effect::Kernel(effect) => effect.spec_output(),
            Effect::GaussianBlur(effect) => effect.spec_output(),
        }
    }

    open spec fn spec_apply(&self, container: &Container, input: &FBO) -> Seq<GlCommand> {
        match self {
            Effect::Kernel(effect) => effect.spec_apply(container, input),
            Effect::GaussianBlur(effect) => effect.spec_apply(container, input),
        }
    }

    open spec fn spec_apply_to_screen(&self, container: &Container, input: &FBO) -> Seq<GlCommand> {
        match self {
            Effect::Kernel(effect) => effect.spec_apply_to_screen(container, input),
            Effect::GaussianBlur(effect) => effect.spec_apply_to_screen(container, input),
        }
    }

    fn ready(&self) -> (ok: bool) {
        match self {
            Effect::Kernel(effect) => effect.ready(),
            Effect::GaussianBlur(effect) => effect.ready(),
        }
    }

    fn apply(&self, container: &Container, gl: &mut GlQueue, input: &FBO) -> (output: &FBO) {
        match self {
            Effect::Kernel(effect) => effect.apply(container, gl, input),
            Effect::GaussianBlur(effect) => effect.apply(container, gl, input),
        }
    }

    fn apply_to_screen(&self, container: &Container, gl: &mut GlQueue, input: &FBO) {
        match self {
            Effect::Kernel(effect) => effect.apply_to_screen(container, gl, input),
            Effect::GaussianBlur(effect) => effect.apply_to_screen(container, gl, input),
        }
    }
}

} // verus!
