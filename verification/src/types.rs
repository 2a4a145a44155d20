//! The types of the language: `int`, `bool` and procedure types.

use std::rc::Rc;
use vstd::prelude::*;
use vstd::std_specs::cmp::PartialEqSpecImpl;
use vstd::string::StringExecFns;
use crate::util::share;

verus! {

/// A type as a mathematical tree.
pub enum TypeView {
    Int,
    Bool,
    Proc(Box<TypeView>, Box<TypeView>),
}

/// How a type is written in source text: `int`, `bool`, `(T1 -> T2)`.
pub open spec fn type_text(t: TypeView) -> Seq<char>
    decreases t,
{
    match t {
        TypeView::Int => "int"@,
        TypeView::Bool => "bool"@,
        TypeView::Proc(p, r) => "("@ + type_text(*p) + " -> "@ + type_text(*r) + ")"@,
    }
}

/// The outermost constructor of a type.
#[derive(Debug)]
pub enum TypeTag {
    Int,
    Bool,
    Proc { t_param: Type, t_result: Type },
}

impl View for TypeTag {
    type V = TypeView;

    open spec fn view(&self) -> TypeView {
        self.shape()
    }
}

impl TypeTag {
    /// The tree that the tag denotes.
    pub open spec fn shape(&self) -> TypeView
        decreases self,
    {
        match self {
            TypeTag::Int => TypeView::Int,
            TypeTag::Bool => TypeView::Bool,
            TypeTag::Proc { t_param, t_result } => TypeView::Proc(
                Box::new(t_param.shape()),
                Box::new(t_result.shape()),
            ),
        }
    }

    pub fn is_int(&self) -> (b: bool)
        ensures
            b == (self@ is Int),
    {
        match self {
            TypeTag::Int => true,
            _ => false,
        }
    }

    pub fn is_bool(&self) -> (b: bool)
        ensures
            b == (self@ is Bool),
    {
        match self {
            TypeTag::Bool => true,
            _ => false,
        }
    }

    /// The parameter and result types of a procedure type.
    pub fn as_proc(&self) -> (parts: Option<(&Type, &Type)>)
        ensures
            match self@ {
                TypeView::Proc(p, r) => parts matches Some((t_param, t_result)) && t_param@ == *p
                    && t_result@ == *r,
                _ => parts is None,
            },
    {
        match self {
            TypeTag::Proc { t_param, t_result } => Some((t_param, t_result)),
            _ => None,
        }
    }

    /// Whether two tags denote the same type.
    fn same(&self, other: &Self) -> (b: bool)
        ensures
            b == (self@ == other@),
        decreases self,
    {
        match self {
            TypeTag::Int => other.is_int(),
            TypeTag::Bool => other.is_bool(),
            TypeTag::Proc { t_param, t_result } => match other {
                TypeTag::Proc { t_param: other_param, t_result: other_result } => {
                    t_param.same(other_param) && t_result.same(other_result)
                },
                _ => false,
            },
        }
    }

    /// The tag as source text.
    fn text(&self) -> (s: String)
        ensures
            s@ == type_text(self@),
        decreases self,
    {
        match self {
            TypeTag::Int => String::from_str("int"),
            TypeTag::Bool => String::from_str("bool"),
            TypeTag::Proc { t_param, t_result } => {
                let mut s = String::from_str("(");
                let p = t_param.to_string();
                s.append(p.as_str());
                s.append(" -> ");
                let r = t_result.to_string();
                s.append(r.as_str());
                s.append(")");
                s
            },
        }
    }
}

impl PartialEq for TypeTag {
    fn eq(&self, other: &Self) -> (b: bool) {
        self.same(other)
    }
}

/// Two tags are equal when they denote the same type.
impl PartialEqSpecImpl for TypeTag {
    open spec fn obeys_eq_spec() -> bool {
        true
    }

    open spec fn eq_spec(&self, other: &Self) -> bool {
        self@ == other@
    }
}

/// A type. Its representation is shared between the copies of it.
#[derive(Debug)]
pub struct Type {
    tag: Rc<TypeTag>,
}

impl View for Type {
    type V = TypeView;

    open spec fn view(&self) -> TypeView {
        self.shape()
    }
}

impl Type {
    /// The tree that the type denotes.
    pub closed spec fn shape(&self) -> TypeView
        decreases self,
    {
        self.tag.shape()
    }

    pub fn new_int() -> (t: Self)
        ensures
            t@ == TypeView::Int,
    {
        let tag = Rc::new(TypeTag::Int);
        Self { tag }
    }

    pub fn new_bool() -> (t: Self)
        ensures
            t@ == TypeView::Bool,
    {
        let tag = Rc::new(TypeTag::Bool);
        Self { tag }
    }

    pub fn new_proc(t_param: Type, t_result: Type) -> (t: Self)
        ensures
            t@ == TypeView::Proc(Box::new(t_param@), Box::new(t_result@)),
    {
        let tag = Rc::new(TypeTag::Proc { t_param, t_result });
        Self { tag }
    }

    pub fn is_int(&self) -> (b: bool)
        ensures
            b == (self@ is Int),
    {
        self.tag.is_int()
    }

    pub fn is_bool(&self) -> (b: bool)
        ensures
            b == (self@ is Bool),
    {
        self.tag.is_bool()
    }

    /// The parameter and result types of a procedure type.
    pub fn as_proc(&self) -> (parts: Option<(&Type, &Type)>)
        ensures
            match self@ {
                TypeView::Proc(p, r) => parts matches Some((t_param, t_result)) && t_param@ == *p
                    && t_result@ == *r,
                _ => parts is None,
            },
    {
        self.tag.as_proc()
    }

    /// Whether two types are the same type.
    fn same(&self, other: &Self) -> (b: bool)
        ensures
            b == (self@ == other@),
        decreases self,
    {
        self.tag.same(&other.tag)
    }

    /// The type as source text: `int`, `bool`, `(T1 -> T2)`.
    pub fn to_string(&self) -> (s: String)
        ensures
            s@ == type_text(self@),
        decreases self,
    {
        self.tag.text()
    }
}

impl PartialEq for Type {
    fn eq(&self, other: &Self) -> (b: bool) {
        self.same(other)
    }
}

/// Two types are equal when they have the same structure.
impl PartialEqSpecImpl for Type {
    open spec fn obeys_eq_spec() -> bool {
        true
    }

    open spec fn eq_spec(&self, other: &Self) -> bool {
        self@ == other@
    }
}

impl Clone for Type {
    fn clone(&self) -> (t: Self)
        ensures
            t == *self,
    {
        let tag = share(&self.tag);
        Self { tag }
    }
}

} // verus!
