//! The records that parsing produces: documentation comments and the
//! declarations they describe.

use vstd::prelude::*;

use crate::text::views;

verus! {

/// A documented parameter.
pub struct Param {
    /// The name of the parameter.
    pub name: String,
    /// The description of the parameter.
    pub description: String,
}

/// The model of a [`Param`].
pub struct ParamV {
    pub name: Seq<char>,
    pub description: Seq<char>,
}

impl View for Param {
    type V = ParamV;

    open spec fn view(&self) -> ParamV {
        ParamV { name: self.name@, description: self.description@ }
    }
}

/// The documented return value of a function.
pub struct Return {
    /// The description of the return value.
    pub description: String,
}

impl View for Return {
    type V = Seq<char>;

    open spec fn view(&self) -> Seq<char> {
        self.description@
    }
}

/// A documentation comment.
pub struct DocComment {
    /// The free text of the comment, one line per physical line.
    pub comment: String,
    /// The documented parameters, in the order of their `@param` lines.
    pub params: Vec<Param>,
    /// The documented return value.
    pub retval: Option<Return>,
}

/// The model of a [`DocComment`].
pub struct DocCommentV {
    pub comment: Seq<char>,
    pub params: Seq<ParamV>,
    pub retval: Option<Seq<char>>,
}

/// The models of a sequence of parameters.
pub open spec fn param_views(v: Seq<Param>) -> Seq<ParamV> {
    v.map_values(|p: Param| p@)
}

impl View for DocComment {
    type V = DocCommentV;

    open spec fn view(&self) -> DocCommentV {
        DocCommentV {
            comment: self.comment@,
            params: param_views(self.params@),
            retval: match self.retval {
                Some(r) => Some(r@),
                None => None,
            },
        }
    }
}

/// A struct declaration.
pub struct Struct {
    /// The name of the struct.
    pub name: String,
    /// The struct's members, in source order.
    pub members: Vec<String>,
}

/// The model of a [`Struct`].
pub struct StructV {
    pub name: Seq<char>,
    pub members: Seq<Seq<char>>,
}

impl View for Struct {
    type V = StructV;

    open spec fn view(&self) -> StructV {
        StructV { name: self.name@, members: views(self.members@) }
    }
}

/// A function declaration.
pub struct Function {
    /// The name of the function.
    pub name: String,
    /// The return type of the function.
    pub return_type: String,
    /// The function's parameters, in source order.
    pub params: Vec<String>,
}

/// The model of a [`Function`].
pub struct FunctionV {
    pub name: Seq<char>,
    pub return_type: Seq<char>,
    pub params: Seq<Seq<char>>,
}

impl View for Function {
    type V = FunctionV;

    open spec fn view(&self) -> FunctionV {
        FunctionV { name: self.name@, return_type: self.return_type@, params: views(self.params@) }
    }
}

/// An enum declaration.
pub struct Enum {
    /// The name of the enum.
    pub name: String,
    /// The enum's variants, in source order.
    pub variants: Vec<String>,
}

/// The model of an [`Enum`].
pub struct EnumV {
    pub name: Seq<char>,
    pub variants: Seq<Seq<char>>,
}

impl View for Enum {
    type V = EnumV;

    open spec fn view(&self) -> EnumV {
        EnumV { name: self.name@, variants: views(self.variants@) }
    }
}

} // verus!
