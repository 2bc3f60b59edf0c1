//! Declared types and declarations.

use vstd::prelude::*;
use vstd::string::StringExecFns;
use crate::text::{decimal, append_decimal};

verus! {

/// Size of a scalar, in storage units.
pub const SCALAR_SIZE: u64 = 4;

/// What a function type holds.
#[derive(Debug, PartialEq)]
pub struct FuncInfo {
    pub return_type: Box<BasicType>,
    pub param_types: Vec<BasicType>,
    pub body_scope: usize,
}

/// The type of a declaration or of an expression.
#[derive(Debug, PartialEq)]
pub enum BasicType {
    Int,
    Double,
    Function(FuncInfo),
    Array(Box<BasicType>, u32),
}

/// A type as a mathematical value.
pub enum TypeView {
    Int,
    Double,
    Function { return_type: Box<TypeView>, param_types: Seq<TypeView>, body_scope: usize },
    Array(Box<TypeView>, u32),
}

/// The mathematical value of a type.
pub open spec fn type_view(t: BasicType) -> TypeView
    decreases t,
{
    match t {
        BasicType::Int => TypeView::Int,
        BasicType::Double => TypeView::Double,
        BasicType::Function(info) => TypeView::Function {
            return_type: Box::new(type_view(*info.return_type)),
            param_types: Seq::new(
                info.param_types@.len(),
                |i: int|
                    if 0 <= i < info.param_types@.len() {
                        type_view(info.param_types@[i])
                    } else {
                        TypeView::Int
                    },
            ),
            body_scope: info.body_scope,
        },
        BasicType::Array(inner, len) => TypeView::Array(Box::new(type_view(*inner)), len),
    }
}

impl View for BasicType {
    type V = TypeView;

    open spec fn view(&self) -> TypeView {
        type_view(*self)
    }
}

/// The types `params` from place `k` on, written one after the other with
/// a comma and a space between them.
pub open spec fn params_text(params: Seq<TypeView>, k: int) -> Seq<char>
    decreases params, params.len() - k,
{
    if k < 0 || k >= params.len() {
        Seq::empty()
    } else if k == params.len() - 1 {
        type_text(params[k])
    } else {
        type_text(params[k]) + ", "@ + params_text(params, k + 1)
    }
}

/// The way a type is written in messages.
pub open spec fn type_text(t: TypeView) -> Seq<char>
    decreases t,
{
    match t {
        TypeView::Int => "int"@,
        TypeView::Double => "double"@,
        TypeView::Function { return_type, param_types, body_scope } => "func("@ + params_text(
            param_types,
            0,
        ) + ") -> "@ + type_text(*return_type),
        TypeView::Array(inner, len) => "["@ + type_text(*inner) + "; "@ + decimal(len as nat)
            + "]"@,
    }
}

impl TypeView {
    /// Storage units a value of the type takes: four for a scalar, four for
    /// each element of an array, none for a function.
    pub open spec fn size(self) -> nat {
        match self {
            TypeView::Int => 4,
            TypeView::Double => 4,
            TypeView::Function { .. } => 0,
            TypeView::Array(_, len) => 4 * (len as nat),
        }
    }
}

impl BasicType {
    /// Storage units a value of the type takes.
    pub fn get_size(&self) -> (r: u64)
        ensures
            r == self@.size(),
    {
        match self {
            BasicType::Int => SCALAR_SIZE,
            BasicType::Double => SCALAR_SIZE,
            BasicType::Function(_) => 0,
            BasicType::Array(_, len) => SCALAR_SIZE * (*len as u64),
        }
    }

    /// Appends to `s` the way the type is written in messages.
    pub fn append_text(&self, s: &mut String)
        ensures
            final(s)@ == old(s)@ + type_text(self@),
        decreases self,
    {
        match self {
            BasicType::Int => {
                s.append("int");
            },
            BasicType::Double => {
                s.append("double");
            },
            BasicType::Function(info) => {
                s.append("func(");
                let ghost params = self@->param_types;
                let ghost start = s@;
                let mut i: usize = 0;
                assert(params.len() == info.param_types@.len());
                while i < info.param_types.len()
                    invariant
                        0 <= i <= info.param_types@.len(),
                        decreases_to!(*self => *info),
                        params.len() == info.param_types@.len(),
                        forall|j: int| 0 <= j < params.len() ==> params[j] == info.param_types@[j]@,
                        s@ + params_text(params, i as int) == start + params_text(params, 0),
                    decreases info.param_types@.len() - i,
                {
                    assert(decreases_to!(info.param_types => info.param_types[i as int]));
                    let ghost before = s@;
                    info.param_types[i].append_text(s);
                    if i + 1 < info.param_types.len() {
                        s.append(", ");
                        assert(s@ + params_text(params, i + 1) =~= before + params_text(
                            params,
                            i as int,
                        ));
                    } else {
                        assert(s@ + params_text(params, i + 1) =~= before + params_text(
                            params,
                            i as int,
                        ));
                    }
                    i += 1;
                }
                assert(s@ =~= start + params_text(params, 0));
                s.append(") -> ");
                info.return_type.append_text(s);
                assert(s@ =~= old(s)@ + type_text(self@));
            },
            BasicType::Array(inner, len) => {
                s.append("[");
                inner.append_text(s);
                s.append("; ");
                append_decimal(s, *len as u64);
                s.append("]");
                assert(s@ =~= old(s)@ + type_text(self@));
            },
        }
    }

    /// The way the type is written in messages.
    pub fn to_log_message(&self) -> (s: String)
        ensures
            s@ == type_text(self@),
    {
        let mut s = String::new();
        self.append_text(&mut s);
        assert(s@ =~= type_text(self@));
        s
    }

    /// Whether two types are the same type.
    pub fn same_as(&self, other: &BasicType) -> (r: bool)
        ensures
            r == (self@ == other@),
        decreases self,
    {
        match self {
            BasicType::Int => match other {
                BasicType::Int => true,
                _ => false,
            },
            BasicType::Double => match other {
                BasicType::Double => true,
                _ => false,
            },
            BasicType::Array(a, n) => match other {
                BasicType::Array(b, m) => *n == *m && a.same_as(b),
                _ => false,
            },
            BasicType::Function(f) => match other {
                BasicType::Function(g) => {
                    if f.body_scope != g.body_scope || f.param_types.len() != g.param_types.len()
                        || !f.return_type.same_as(&g.return_type) {
                        assert(self@->param_types.len() == f.param_types@.len());
                        assert(other@->param_types.len() == g.param_types@.len());
                        return false;
                    }
                    let mut i: usize = 0;
                    while i < f.param_types.len()
                        invariant
                            0 <= i <= f.param_types.len(),
                            f.param_types.len() == g.param_types.len(),
                            forall|j: int| 0 <= j < i ==> f.param_types@[j]@ == g.param_types@[j]@,
                            *self == BasicType::Function(*f),
                            *other == BasicType::Function(*g),
                        decreases f.param_types.len() - i,
                    {
                        assert(decreases_to!(f.param_types => f.param_types[i as int]));
                        if !f.param_types[i].same_as(&g.param_types[i]) {
                            assert(self@->param_types[i as int] == f.param_types@[i as int]@);
                            assert(other@->param_types[i as int] == g.param_types@[i as int]@);
                            return false;
                        }
                        i += 1;
                    }
                    assert(self@->param_types =~= other@->param_types);
                    true
                },
                _ => false,
            },
        }
    }
}

impl BasicType {
    /// A copy of the type.
    pub fn duplicate(&self) -> (r: Self)
        ensures
            r@ == self@,
        decreases self,
    {
        match self {
            BasicType::Int => BasicType::Int,
            BasicType::Double => BasicType::Double,
            BasicType::Array(inner, len) => BasicType::Array(Box::new(inner.duplicate()), *len),
            BasicType::Function(f) => {
                let mut params: Vec<BasicType> = Vec::new();
                let mut i: usize = 0;
                while i < f.param_types.len()
                    invariant
                        0 <= i <= f.param_types.len(),
                        params@.len() == i,
                        decreases_to!(*self => *f),
                        forall|j: int| 0 <= j < i ==> params@[j]@ == f.param_types@[j]@,
                        *self == BasicType::Function(*f),
                    decreases f.param_types.len() - i,
                {
                    assert(decreases_to!(f.param_types => f.param_types[i as int]));
                    let param = f.param_types[i].duplicate();
                    params.push(param);
                    i += 1;
                }
                let r = BasicType::Function(
                    FuncInfo {
                        return_type: Box::new(f.return_type.duplicate()),
                        param_types: params,
                        body_scope: f.body_scope,
                    },
                );
                assert(r@->param_types =~= self@->param_types);
                r
            },
        }
    }
}

impl Clone for BasicType {
    fn clone(&self) -> (r: Self)
        ensures
            r@ == self@,
    {
        self.duplicate()
    }
}

/// A declaration's name with the index of the scope that declares it.
pub type DeclId = (String, usize);

/// The name a declaration has in generated code: its source name followed by
/// the decimal index of its declaring scope.
pub open spec fn mangled(name: Seq<char>, scope: nat) -> Seq<char> {
    name + decimal(scope)
}

/// The name the declaration `decl_id` has in generated code.
pub fn to_var_name(decl_id: &DeclId) -> (s: String)
    ensures
        s@ == mangled(decl_id.0@, decl_id.1 as nat),
{
    let mut s = decl_id.0.clone();
    append_decimal(&mut s, decl_id.1 as u64);
    s
}

/// A declared name with its type and declaring scope.
#[derive(Debug, PartialEq)]
pub struct SymbolDecl {
    pub name: String,
    pub var_type: BasicType,
    pub scope: usize,
}

/// A declaration as a mathematical value.
pub struct DeclView {
    pub name: Seq<char>,
    pub var_type: TypeView,
    pub scope: usize,
}

impl View for SymbolDecl {
    type V = DeclView;

    open spec fn view(&self) -> DeclView {
        DeclView { name: self.name@, var_type: self.var_type@, scope: self.scope }
    }
}

impl SymbolDecl {
    /// A declaration of `name` with type `var_type` in scope `scope`.
    pub fn new(name: String, var_type: BasicType, scope: usize) -> (d: SymbolDecl)
        ensures
            d.name == name,
            d.var_type == var_type,
            d.scope == scope,
    {
        SymbolDecl { name, var_type, scope }
    }

    /// A declaration, in scope `scope`, of a function `name` that returns
    /// `return_type`, has no parameters yet and has its body in `body_scope`.
    pub fn new_func(name: String, return_type: BasicType, body_scope: usize, scope: usize) -> (d:
        SymbolDecl)
        ensures
            d.name == name,
            d.scope == scope,
            d.var_type@ == (TypeView::Function {
                return_type: Box::new(return_type@),
                param_types: Seq::empty(),
                body_scope,
            }),
            d.var_type matches BasicType::Function(info) && *info.return_type == return_type
                && info.param_types@.len() == 0 && info.body_scope == body_scope,
    {
        let info = FuncInfo {
            return_type: Box::new(return_type),
            param_types: Vec::new(),
            body_scope,
        };
        let d = SymbolDecl { name, var_type: BasicType::Function(info), scope };
        assert(d.var_type@->param_types =~= Seq::empty());
        d
    }

    /// The declaration's identity.
    pub fn get_id(&self) -> (id: DeclId)
        ensures
            id.0 == self.name,
            id.1 == self.scope,
    {
        (self.name.clone(), self.scope)
    }

    /// The name the declaration has in generated code.
    pub fn to_var_name(&self) -> (s: String)
        ensures
            s@ == mangled(self.name@, self.scope as nat),
    {
        let mut s = self.name.clone();
        append_decimal(&mut s, self.scope as u64);
        s
    }

    /// Storage units the declared value takes.
    pub fn get_size(&self) -> (r: u64)
        ensures
            r == self.var_type@.size(),
    {
        self.var_type.get_size()
    }
}

impl Clone for SymbolDecl {
    fn clone(&self) -> (r: Self)
        ensures
            r.name == self.name,
            r.var_type@ == self.var_type@,
            r.scope == self.scope,
            r@ == self@,
    {
        SymbolDecl { name: self.name.clone(), var_type: self.var_type.clone(), scope: self.scope }
    }
}

} // verus!
