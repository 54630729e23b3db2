//! Shaders and shader programs.

use crate::gl_wrapper::{GlCommand, GlQueue, ShaderKind, UniformValue};
use crate::math::{Mat4, Real, Vec3};
use std::sync::Arc;
use vstd::prelude::*;

verus! {

/// One stage of a shader program, compiled from source.
#[derive(Debug)]
pub struct ShaderPart {
    pub id: u32,
}

impl ShaderPart {
    /// A shader of the given kind under a fresh name, compiled from
    /// `source`. Carrying the command out fails where the source does not
    /// compile.
    pub fn from_source(gl: &mut GlQueue, source: String, kind: ShaderKind) -> (part: ShaderPart)
        requires
            old(gl).has_names(1),
        ensures
            part.id == old(gl).last_name() + 1,
            final(gl).last_name() == part.id,
            final(gl)@ == old(gl)@.push(GlCommand::CompileShader { shader: part.id, kind, source }),
    {
        let id = gl.fresh_name();
        gl.push(GlCommand::CompileShader { shader: id, kind, source });
        ShaderPart { id }
    }

    /// Gives the shader up.
    pub fn delete(self, gl: &mut GlQueue)
        ensures
            final(gl).last_name() == old(gl).last_name(),
            final(gl)@ == old(gl)@.push(GlCommand::DeleteShader { shader: self.id }),
    {
        gl.push(GlCommand::DeleteShader { shader: self.id });
    }

    /// A vertex shader compiled from `source`.
    pub fn from_vert_source(gl: &mut GlQueue, source: String) -> (part: ShaderPart)
        requires
            old(gl).has_names(1),
        ensures
            part.id == old(gl).last_name() + 1,
            final(gl).last_name() == part.id,
            final(gl)@ == old(gl)@.push(
                GlCommand::CompileShader { shader: part.id, kind: ShaderKind::Vertex, source },
            ),
    {
        ShaderPart::from_source(gl, source, ShaderKind::Vertex)
    }

    /// A fragment shader compiled from `source`.
    pub fn from_frag_source(gl: &mut GlQueue, source: String) -> (part: ShaderPart)
        requires
            old(gl).has_names(1),
        ensures
            part.id == old(gl).last_name() + 1,
            final(gl).last_name() == part.id,
            final(gl)@ == old(gl)@.push(
                GlCommand::CompileShader { shader: part.id, kind: ShaderKind::Fragment, source },
            ),
    {
        ShaderPart::from_source(gl, source, ShaderKind::Fragment)
    }
}

/// A linked shader program.
#[derive(Debug)]
pub struct ShaderProgram {
    pub id: u32,
}

impl ShaderProgram {
    /// The commands that link the program `id` from the two shaders, which
    /// are of no use afterwards and are deleted.
    pub open spec fn creation(id: u32, vertex: u32, fragment: u32) -> Seq<GlCommand> {
        seq![
            GlCommand::LinkProgram { program: id, vertex, fragment },
            GlCommand::DeleteShader { shader: fragment },
            GlCommand::DeleteShader { shader: vertex },
        ]
    }

    /// A program under a fresh name, linked from the two shaders. Carrying
    /// the commands out fails where the shaders do not link.
    pub fn from_shaders(gl: &mut GlQueue, vertex: ShaderPart, fragment: ShaderPart) -> (program:
        ShaderProgram)
        requires
            old(gl).has_names(1),
        ensures
            program.id == old(gl).last_name() + 1,
            final(gl).last_name() == program.id,
            final(gl)@ == old(gl)@ + Self::creation(program.id, vertex.id, fragment.id),
    {
        let id = gl.fresh_name();
        gl.push(GlCommand::LinkProgram { program: id, vertex: vertex.id, fragment: fragment.id });
        gl.push(GlCommand::DeleteShader { shader: fragment.id });
        gl.push(GlCommand::DeleteShader { shader: vertex.id });
        proof {
            assert(gl@ =~= old(gl)@ + Self::creation(id, vertex.id, fragment.id));
        }
        ShaderProgram { id }
    }

    /// Gives the program up.
    pub fn delete(self, gl: &mut GlQueue)
        ensures
            final(gl).last_name() == old(gl).last_name(),
            final(gl)@ == old(gl)@.push(GlCommand::DeleteProgram { program: self.id }),
    {
        gl.push(GlCommand::DeleteProgram { program: self.id });
    }

    /// Makes the program the one that draws.
    pub fn use_program(&self, gl: &mut GlQueue)
        ensures
            final(gl).last_name() == old(gl).last_name(),
            final(gl)@ == old(gl)@.push(GlCommand::UseProgram { program: self.id }),
    {
        gl.push(GlCommand::UseProgram { program: self.id });
    }

    /// Sets the uniform `name` of the program to `value`. Carrying the
    /// command out fails where the program has no such uniform.
    pub fn set_uniform(&self, gl: &mut GlQueue, name: &'static str, value: UniformValue) -> (this:
        &Self)
        ensures
            *this == *self,
            final(gl).last_name() == old(gl).last_name(),
            final(gl)@ == old(gl)@.push(GlCommand::SetUniform { program: self.id, name, value }),
    {
        gl.push(GlCommand::SetUniform { program: self.id, name, value });
        self
    }

    /// Sets a uniform vector of three scalars.
    pub fn set_uniform3f(&self, gl: &mut GlQueue, name: &'static str, values: Vec3) -> (this: &Self)
        ensures
            *this == *self,
            final(gl).last_name() == old(gl).last_name(),
            final(gl)@ == old(gl)@.push(
                GlCommand::SetUniform {
                    program: self.id,
                    name,
                    value: UniformValue::Vector3(values),
                },
            ),
    {
        self.set_uniform(gl, name, UniformValue::Vector3(values))
    }

    /// Sets a uniform vector of four scalars.
    pub fn set_uniform4f(&self, gl: &mut GlQueue, name: &'static str, values: [Real; 4]) -> (this:
        &Self)
        ensures
            *this == *self,
            final(gl).last_name() == old(gl).last_name(),
            final(gl)@ == old(gl)@.push(
                GlCommand::SetUniform {
                    program: self.id,
                    name,
                    value: UniformValue::Vector4(values),
                },
            ),
    {
        self.set_uniform(gl, name, UniformValue::Vector4(values))
    }

    /// Sets a uniform 4x4 matrix.
    pub fn set_uniform_matrix4fv(&self, gl: &mut GlQueue, name: &'static str, matrix: Mat4) -> (this:
        &Self)
        ensures
            *this == *self,
            final(gl).last_name() == old(gl).last_name(),
            final(gl)@ == old(gl)@.push(
                GlCommand::SetUniform {
                    program: self.id,
                    name,
                    value: UniformValue::Matrix4(matrix),
                },
            ),
    {
        self.set_uniform(gl, name, UniformValue::Matrix4(matrix))
    }

    /// Sets a uniform array of scalars, given by their bit patterns.
    pub fn set_uniform1fv(&self, gl: &mut GlQueue, name: &'static str, scalars: Arc<Vec<u32>>) -> (this:
        &Self)
        ensures
            *this == *self,
            final(gl).last_name() == old(gl).last_name(),
            final(gl)@ == old(gl)@.push(
                GlCommand::SetUniform {
                    program: self.id,
                    name,
                    value: UniformValue::Scalars(scalars),
                },
            ),
    {
        self.set_uniform(gl, name, UniformValue::Scalars(scalars))
    }

    /// Sets a uniform scalar.
    pub fn set_uniform1f(&self, gl: &mut GlQueue, name: &'static str, value: Real) -> (this: &Self)
        ensures
            *this == *self,
            final(gl).last_name() == old(gl).last_name(),
            final(gl)@ == old(gl)@.push(
                GlCommand::SetUniform { program: self.id, name, value: UniformValue::Scalar(value) },
            ),
    {
        self.set_uniform(gl, name, UniformValue::Scalar(value))
    }

    /// Sets a uniform integer.
    pub fn set_uniform1i(&self, gl: &mut GlQueue, name: &'static str, value: i32) -> (this: &Self)
        ensures
            *this == *self,
            final(gl).last_name() == old(gl).last_name(),
            final(gl)@ == old(gl)@.push(
                GlCommand::SetUniform { program: self.id, name, value: UniformValue::Int(value) },
            ),
    {
        self.set_uniform(gl, name, UniformValue::Int(value))
    }
}

} // verus!
