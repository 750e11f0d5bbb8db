use vstd::prelude::*;
use crate::ast::{Ast, Datatype, TypeInfo};
use crate::model::{
    AstV, DatatypeV, TypeV, SKind, view_ast, view_dt, view_dt_fields, view_ty, view_tys,
    view_ty_fields, lemma_view_asts, lemma_view_dt_fields,
};
use crate::deep::{decompose, copy_type, copy_string, lemma_view_tys_push, lemma_view_ty_fields_push};

verus! {

/// The type annotated in one parameter of a function, `name: Type`; a
/// parameter written in any other form has the type `Any`.
pub open spec fn param_type(p: AstV) -> TypeV {
    match p {
        AstV::Op(k, args) => if k == SKind::TypeAssignment && args.len() == 2 && args[1] is Type {
            args[1]->Type_0
        } else {
            TypeV::Any
        },
        _ => TypeV::Any,
    }
}

/// The annotated types of a parameter list, in order.
pub open spec fn params_types(ps: Seq<AstV>) -> Seq<TypeV> {
    Seq::new(ps.len(), |i: int| param_type(ps[i]))
}

/// The type of a value: an array has the type its elements are declared with,
/// a function the types of its parameters and of its result, a struct the
/// types of its fields, and a struct type names itself.
pub open spec fn type_of(d: DatatypeV) -> TypeV
    decreases d,
{
    match d {
        DatatypeV::Number(_) => TypeV::Number,
        DatatypeV::String(_) => TypeV::String,
        DatatypeV::Array(_, t) => TypeV::Array(Box::new(t)),
        DatatypeV::Bool(_) => TypeV::Bool,
        DatatypeV::Nothing => TypeV::Nothing,
        DatatypeV::Function(params, _, ret) => match *params {
            AstV::ExpressionList(list) => TypeV::Function(params_types(list), Box::new(ret)),
            _ => TypeV::Function(Seq::empty(), Box::new(ret)),
        },
        DatatypeV::Struct(m) => TypeV::Struct(fields_types(m)),
        DatatypeV::StructType(id, _) => TypeV::StructType(id),
    }
}

pub open spec fn fields_types(m: Seq<(Seq<char>, DatatypeV)>) -> Seq<(Seq<char>, TypeV)>
    decreases m,
{
    if m.len() == 0 {
        Seq::empty()
    } else {
        seq![(m[0].0, type_of(m[0].1))] + fields_types(m.drop_first())
    }
}

proof fn lemma_fields_types_push(m: Seq<(Seq<char>, DatatypeV)>, e: (Seq<char>, DatatypeV))
    ensures
        fields_types(m.push(e)) == fields_types(m).push((e.0, type_of(e.1))),
    decreases m.len(),
{
    assert(m.push(e).drop_first() =~= if m.len() == 0 { m } else { m.drop_first().push(e) });
    if m.len() > 0 {
        lemma_fields_types_push(m.drop_first(), e);
    }
    assert(fields_types(m.push(e)) =~= fields_types(m).push((e.0, type_of(e.1))));
}

impl TypeInfo {
    /// The type of a value.
    pub fn from_datatype(d: &Datatype) -> (r: TypeInfo)
        ensures
            r@ == type_of(d@),
        decreases d,
    {
        match d {
            Datatype::Number(_) => TypeInfo::Number,
            Datatype::String(_) => TypeInfo::String,
            Datatype::Array { type_, .. } => TypeInfo::Array(Box::new(copy_type(type_))),
            Datatype::Bool(_) => TypeInfo::Bool,
            Datatype::Nothing => TypeInfo::Nothing,
            Datatype::Function { parameters, return_type, .. } => {
                match &**parameters {
                    Ast::ExpressionList(list) => {
                        let ghost ps = crate::model::view_asts(list@);
                        proof {
                            lemma_view_asts(list@);
                        }
                        let mut types: Vec<TypeInfo> = Vec::new();
                        let mut i: usize = 0;
                        while i < list.len()
                            invariant
                                i <= list.len(),
                                ps == crate::model::view_asts(list@),
                                ps.len() == list@.len(),
                                forall|j: int| 0 <= j < list@.len() ==> #[trigger] ps[j] == view_ast(list@[j]),
                                view_tys(types@) =~= params_types(ps).subrange(0, i as int),
                            decreases list.len() - i,
                        {
                            let t = param_type_of(&list[i]);
                            proof {
                                lemma_view_tys_push(types@, t);
                            }
                            types.push(t);
                            i = i + 1;
                        }
                        assert(params_types(ps).subrange(0, i as int) =~= params_types(ps));
                        let r = TypeInfo::Function { parameters: types, return_type: Box::new(copy_type(return_type)) };
                        assert(view_tys(types@) == params_types(ps));
                        assert(r@ == TypeV::Function(params_types(ps), Box::new(view_ty(*return_type))));
                        assert(view_ast(**parameters) == AstV::ExpressionList(ps));
                        assert(r@ == type_of(d@));
                        r
                    }
                    _ => {
                        proof {
                            if let Ast::SExpr(s) = &**parameters {
                                crate::model::lemma_view_sexpr_is_op(*s);
                            }
                        }
                        let r = TypeInfo::Function { parameters: Vec::new(), return_type: Box::new(copy_type(return_type)) };
                        assert(view_tys(Seq::<TypeInfo>::empty()) =~= Seq::<TypeV>::empty());
                        assert(r@ == type_of(d@));
                        r
                    }
                }
            }
            Datatype::Struct { map } => {
                let ghost vm = view_dt_fields(map@);
                proof {
                    lemma_view_dt_fields(map@);
                }
                let mut fields: Vec<(String, TypeInfo)> = Vec::new();
                let mut i: usize = 0;
                assert(vm.subrange(0, 0) =~= Seq::<(Seq<char>, DatatypeV)>::empty());
                while i < map.len()
                    invariant
                        i <= map.len(),
                        *d is Struct,
                        (*d)->map == *map,
                        vm == view_dt_fields(map@),
                        vm.len() == map@.len(),
                        forall|j: int| 0 <= j < map@.len() ==> #[trigger] vm[j] == (map@[j].0@, view_dt(map@[j].1)),
                        view_ty_fields(fields@) == fields_types(vm.subrange(0, i as int)),
                    decreases map.len() - i,
                {
                    proof {
                        let ghost entry = map@[i as int];
                        assert(decreases_to!(*d => (*d)->map));
                        assert((*d)->map == *map);
                        assert(decreases_to!(*map => map@));
                        assert(decreases_to!(map@ => entry));
                        assert(decreases_to!(entry => entry.1));
                        assert(decreases_to!(*d => entry.1));
                    }
                    let t = TypeInfo::from_datatype(&map[i].1);
                    let e = (copy_string(&map[i].0), t);
                    proof {
                        lemma_view_ty_fields_push(fields@, e);
                        lemma_fields_types_push(vm.subrange(0, i as int), vm[i as int]);
                        assert(vm.subrange(0, i as int).push(vm[i as int]) =~= vm.subrange(0, i + 1));
                    }
                    fields.push(e);
                    i = i + 1;
                }
                assert(vm.subrange(0, i as int) =~= vm);
                TypeInfo::Struct { map: fields }
            }
            Datatype::StructType { identifier, .. } => TypeInfo::StructType { identifier: copy_string(identifier) },
        }
    }
}

/// The type annotated in one parameter entry `name: Type`.
fn param_type_of(p: &Ast) -> (r: TypeInfo)
    ensures
        r@ == param_type(p@),
{
    match p {
        Ast::SExpr(s) => {
            let (k, _, b) = decompose(s);
            match b {
                Some(t) => match t {
                    Ast::Type(ti) => if k == SKind::TypeAssignment {
                        copy_type(ti)
                    } else {
                        TypeInfo::Any
                    },
                    _ => {
                        proof {
                            if let Ast::SExpr(s2) = t {
                                crate::model::lemma_view_sexpr_is_op(*s2);
                            }
                        }
                        TypeInfo::Any
                    }
                },
                None => TypeInfo::Any,
            }
        }
        _ => TypeInfo::Any,
    }
}

} // verus!
