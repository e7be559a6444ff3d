//! The values that flow along the edges of the graph, and their type tags.
use vstd::prelude::*;
use crate::error::EvalError;

verus! {

/// The type of a socket; connections only join sockets of the same type.
#[derive(Copy, Clone, Debug, PartialEq, Eq, Structural)]
pub enum ProtosDataType {
    Unknown,
    Texture,
    Buffer,
    Mesh,
    Shader,
    Scalar,
    Vec2,
    Vec3,
    String,
}

impl ProtosDataType {
    pub fn name(&self) -> (r: &'static str)
        ensures
            r@ == (match self {
                ProtosDataType::Unknown => "unknown"@,
                ProtosDataType::Texture => "texture"@,
                ProtosDataType::Buffer => "buffer"@,
                ProtosDataType::Mesh => "mesh"@,
                ProtosDataType::Shader => "shader"@,
                ProtosDataType::Scalar => "scalar"@,
                ProtosDataType::Vec2 => "vec2"@,
                ProtosDataType::Vec3 => "vec3"@,
                ProtosDataType::String => "string"@,
            }),
    {
        proof {
            reveal_strlit("unknown");
            reveal_strlit("texture");
            reveal_strlit("buffer");
            reveal_strlit("mesh");
            reveal_strlit("shader");
            reveal_strlit("scalar");
            reveal_strlit("vec2");
            reveal_strlit("vec3");
            reveal_strlit("string");
        }
        match self {
            ProtosDataType::Unknown => "unknown",
            ProtosDataType::Texture => "texture",
            ProtosDataType::Buffer => "buffer",
            ProtosDataType::Mesh => "mesh",
            ProtosDataType::Shader => "shader",
            ProtosDataType::Scalar => "scalar",
            ProtosDataType::Vec2 => "vec2",
            ProtosDataType::Vec3 => "vec3",
            ProtosDataType::String => "string",
        }
    }
}

/// A value carried by a socket: a reference to a resource of the arena
/// (`None` when unset), or a constant. Numeric constants hold the unsigned
/// integer that the nodes read from the editor's number.
#[derive(Clone, Debug)]
pub enum ProtosValueType {
    Unknown,
    Texture(Option<usize>),
    Buffer(Option<usize>),
    Mesh(Option<usize>),
    Shader(Option<usize>),
    Scalar(u32),
    Vec2(u32, u32),
    Vec3(u32, u32, u32),
    String(String),
}

/// The type tag of a value.
pub open spec fn type_of(v: ProtosValueType) -> ProtosDataType {
    match v {
        ProtosValueType::Unknown => ProtosDataType::Unknown,
        ProtosValueType::Texture(_) => ProtosDataType::Texture,
        ProtosValueType::Buffer(_) => ProtosDataType::Buffer,
        ProtosValueType::Mesh(_) => ProtosDataType::Mesh,
        ProtosValueType::Shader(_) => ProtosDataType::Shader,
        ProtosValueType::Scalar(_) => ProtosDataType::Scalar,
        ProtosValueType::Vec2(..) => ProtosDataType::Vec2,
        ProtosValueType::Vec3(..) => ProtosDataType::Vec3,
        ProtosValueType::String(_) => ProtosDataType::String,
    }
}

impl ProtosValueType {
    pub fn data_type(&self) -> (r: ProtosDataType)
        ensures
            r == type_of(*self),
    {
        match self {
            ProtosValueType::Unknown => ProtosDataType::Unknown,
            ProtosValueType::Texture(_) => ProtosDataType::Texture,
            ProtosValueType::Buffer(_) => ProtosDataType::Buffer,
            ProtosValueType::Mesh(_) => ProtosDataType::Mesh,
            ProtosValueType::Shader(_) => ProtosDataType::Shader,
            ProtosValueType::Scalar(_) => ProtosDataType::Scalar,
            ProtosValueType::Vec2(..) => ProtosDataType::Vec2,
            ProtosValueType::Vec3(..) => ProtosDataType::Vec3,
            ProtosValueType::String(_) => ProtosDataType::String,
        }
    }

    /// An identical value; resource references stay references to the same
    /// resource.
    pub fn copy(&self) -> (r: Self)
        ensures
            r == *self,
    {
        match self {
            ProtosValueType::Unknown => ProtosValueType::Unknown,
            ProtosValueType::Texture(v) => ProtosValueType::Texture(*v),
            ProtosValueType::Buffer(v) => ProtosValueType::Buffer(*v),
            ProtosValueType::Mesh(v) => ProtosValueType::Mesh(*v),
            ProtosValueType::Shader(v) => ProtosValueType::Shader(*v),
            ProtosValueType::Scalar(v) => ProtosValueType::Scalar(*v),
            ProtosValueType::Vec2(x, y) => ProtosValueType::Vec2(*x, *y),
            ProtosValueType::Vec3(x, y, z) => ProtosValueType::Vec3(*x, *y, *z),
            ProtosValueType::String(s) => ProtosValueType::String(s.clone()),
        }
    }

    pub fn try_to_texture(self) -> (r: Result<Option<usize>, EvalError>)
        ensures
            match self {
                ProtosValueType::Texture(v) => r == Ok::<Option<usize>, EvalError>(v),
                _ => r == Err::<Option<usize>, EvalError>(EvalError::TypeCast { expected: ProtosDataType::Texture, found: type_of(self) }),
            },
    {
        match self {
            ProtosValueType::Texture(v) => Ok(v),
            _ => Err(EvalError::TypeCast { expected: ProtosDataType::Texture, found: self.data_type() }),
        }
    }

    pub fn try_to_geometry(self) -> (r: Result<Option<usize>, EvalError>)
        ensures
            match self {
                ProtosValueType::Mesh(v) => r == Ok::<Option<usize>, EvalError>(v),
                _ => r == Err::<Option<usize>, EvalError>(EvalError::TypeCast { expected: ProtosDataType::Mesh, found: type_of(self) }),
            },
    {
        match self {
            ProtosValueType::Mesh(v) => Ok(v),
            _ => Err(EvalError::TypeCast { expected: ProtosDataType::Mesh, found: self.data_type() }),
        }
    }

    pub fn try_to_shader(self) -> (r: Result<Option<usize>, EvalError>)
        ensures
            match self {
                ProtosValueType::Shader(v) => r == Ok::<Option<usize>, EvalError>(v),
                _ => r == Err::<Option<usize>, EvalError>(EvalError::TypeCast { expected: ProtosDataType::Shader, found: type_of(self) }),
            },
    {
        match self {
            ProtosValueType::Shader(v) => Ok(v),
            _ => Err(EvalError::TypeCast { expected: ProtosDataType::Shader, found: self.data_type() }),
        }
    }

    pub fn try_to_scalar(self) -> (r: Result<u32, EvalError>)
        ensures
            match self {
                ProtosValueType::Scalar(v) => r == Ok::<u32, EvalError>(v),
                _ => r == Err::<u32, EvalError>(EvalError::TypeCast { expected: ProtosDataType::Scalar, found: type_of(self) }),
            },
    {
        match self {
            ProtosValueType::Scalar(v) => Ok(v),
            _ => Err(EvalError::TypeCast { expected: ProtosDataType::Scalar, found: self.data_type() }),
        }
    }

    pub fn try_to_vec2(self) -> (r: Result<(u32, u32), EvalError>)
        ensures
            match self {
                ProtosValueType::Vec2(x, y) => r == Ok::<(u32, u32), EvalError>((x, y)),
                _ => r == Err::<(u32, u32), EvalError>(EvalError::TypeCast { expected: ProtosDataType::Vec2, found: type_of(self) }),
            },
    {
        match self {
            ProtosValueType::Vec2(x, y) => Ok((x, y)),
            _ => Err(EvalError::TypeCast { expected: ProtosDataType::Vec2, found: self.data_type() }),
        }
    }

    pub fn try_to_string(self) -> (r: Result<String, EvalError>)
        ensures
            match self {
                ProtosValueType::String(s) => r == Ok::<String, EvalError>(s),
                _ => r == Err::<String, EvalError>(EvalError::TypeCast { expected: ProtosDataType::String, found: type_of(self) }),
            },
    {
        match self {
            ProtosValueType::String(s) => Ok(s),
            _ => Err(EvalError::TypeCast { expected: ProtosDataType::String, found: self.data_type() }),
        }
    }
}

} // verus!
