use vstd::prelude::*;

use crate::types::{
    BindingDescriptor, BindingType, ClassDecl, ClassMember, ConstructorBinding, KeywordKind,
    MappingError, ModuleItem, Param, ParamBinding, SourceModule, TypeAnnotation,
};

verus! {

pub open spec fn keyword_binding(k: KeywordKind) -> BindingType {
    match k {
        KeywordKind::Number => BindingType::F64,
        KeywordKind::Str => BindingType::Text,
        KeywordKind::Boolean => BindingType::Bool,
        KeywordKind::Void => BindingType::Unit,
        KeywordKind::Other => BindingType::Any,
    }
}

pub open spec fn annotation_binding(a: TypeAnnotation) -> BindingType {
    match a {
        TypeAnnotation::Keyword(k) => keyword_binding(k),
        TypeAnnotation::Compound => BindingType::Any,
    }
}

/// The parameters that make it into a constructor signature: the named ones
/// with an annotation, in order. Shorthand properties and patterns are dropped.
pub open spec fn params_binding(ps: Seq<Param>) -> Seq<(Seq<char>, BindingType)>
    decreases ps.len(),
{
    if ps.len() == 0 {
        Seq::empty()
    } else {
        let prev = params_binding(ps.drop_last());
        match ps.last() {
            Param::Named { name, annotation: Some(a) } => prev.push((name@, annotation_binding(a))),
            _ => prev,
        }
    }
}

/// The first named parameter without an annotation, if any.
pub open spec fn first_unannotated(ps: Seq<Param>) -> Option<Seq<char>>
    decreases ps.len(),
{
    if ps.len() == 0 {
        None
    } else {
        match first_unannotated(ps.drop_last()) {
            Some(n) => Some(n),
            None => match ps.last() {
                Param::Named { name, annotation: None } => Some(name@),
                _ => None,
            },
        }
    }
}

/// The constructor signatures of a class body, one per constructor, in order.
pub open spec fn members_binding(ms: Seq<ClassMember>) -> Seq<Seq<(Seq<char>, BindingType)>>
    decreases ms.len(),
{
    if ms.len() == 0 {
        Seq::empty()
    } else {
        let prev = members_binding(ms.drop_last());
        match ms.last() {
            ClassMember::Constructor(ps) => prev.push(params_binding(ps@)),
            _ => prev,
        }
    }
}

/// The first unannotated constructor parameter of a class body, if any.
pub open spec fn members_unannotated(ms: Seq<ClassMember>) -> Option<Seq<char>>
    decreases ms.len(),
{
    if ms.len() == 0 {
        None
    } else {
        match members_unannotated(ms.drop_last()) {
            Some(n) => Some(n),
            None => match ms.last() {
                ClassMember::Constructor(ps) => first_unannotated(ps@),
                _ => None,
            },
        }
    }
}

pub open spec fn class_binding(c: ClassDecl) -> (Seq<char>, Seq<Seq<(Seq<char>, BindingType)>>) {
    (c.name@, members_binding(c.members@))
}

/// What a module maps to: the bindings of its classes in order, or the class
/// and parameter of the first unannotated constructor parameter.
pub open spec fn module_binding(items: Seq<ModuleItem>) -> Result<
    Seq<(Seq<char>, Seq<Seq<(Seq<char>, BindingType)>>)>,
    (Seq<char>, Seq<char>),
>
    decreases items.len(),
{
    if items.len() == 0 {
        Ok(Seq::empty())
    } else {
        match module_binding(items.drop_last()) {
            Err(e) => Err(e),
            Ok(prev) => match items.last() {
                ModuleItem::Class(c) => match members_unannotated(c.members@) {
                    Some(p) => Err((c.name@, p)),
                    None => Ok(prev.push(class_binding(c))),
                },
                _ => Ok(prev),
            },
        }
    }
}

proof fn lemma_params_prefix(s: Seq<Param>, k: int)
    requires
        0 <= k <= s.len(),
        first_unannotated(s.subrange(0, k)) is Some,
    ensures
        first_unannotated(s) == first_unannotated(s.subrange(0, k)),
    decreases s.len(),
{
    if k < s.len() {
        assert(s.drop_last().subrange(0, k) == s.subrange(0, k));
        lemma_params_prefix(s.drop_last(), k);
    } else {
        assert(s.subrange(0, k) == s);
    }
}

proof fn lemma_members_prefix(s: Seq<ClassMember>, k: int)
    requires
        0 <= k <= s.len(),
        members_unannotated(s.subrange(0, k)) is Some,
    ensures
        members_unannotated(s) == members_unannotated(s.subrange(0, k)),
    decreases s.len(),
{
    if k < s.len() {
        assert(s.drop_last().subrange(0, k) == s.subrange(0, k));
        lemma_members_prefix(s.drop_last(), k);
    } else {
        assert(s.subrange(0, k) == s);
    }
}

proof fn lemma_module_prefix(s: Seq<ModuleItem>, k: int)
    requires
        0 <= k <= s.len(),
        module_binding(s.subrange(0, k)) is Err,
    ensures
        module_binding(s) == module_binding(s.subrange(0, k)),
    decreases s.len(),
{
    if k < s.len() {
        assert(s.drop_last().subrange(0, k) == s.subrange(0, k));
        lemma_module_prefix(s.drop_last(), k);
    } else {
        assert(s.subrange(0, k) == s);
    }
}

/// Maps a keyword annotation kind to its binding type.
pub fn map_types(kind: KeywordKind) -> (r: BindingType)
    ensures
        r == keyword_binding(kind),
{
    match kind {
        KeywordKind::Number => BindingType::F64,
        KeywordKind::Str => BindingType::Text,
        KeywordKind::Boolean => BindingType::Bool,
        KeywordKind::Void => BindingType::Unit,
        KeywordKind::Other => BindingType::Any,
    }
}

/// Maps any annotation: keywords through the table, everything else to `Any`.
pub fn map_annotation(a: TypeAnnotation) -> (r: BindingType)
    ensures
        r == annotation_binding(a),
{
    match a {
        TypeAnnotation::Keyword(k) => map_types(k),
        TypeAnnotation::Compound => BindingType::Any,
    }
}

/// Maps one constructor's parameter list, or names its first unannotated parameter.
pub fn map_constructor(params: &Vec<Param>) -> (r: Result<ConstructorBinding, String>)
    ensures
        match r {
            Ok(c) => first_unannotated(params@) is None && c@ == params_binding(params@),
            Err(n) => first_unannotated(params@) == Some(n@),
        },
{
    let mut out: Vec<ParamBinding> = Vec::new();
    let mut i: usize = 0;
    assert(params@.subrange(0, 0) =~= Seq::empty());
    while i < params.len()
        invariant
            i <= params@.len(),
            first_unannotated(params@.subrange(0, i as int)) is None,
            out@.map_values(|p: ParamBinding| p@) == params_binding(params@.subrange(0, i as int)),
        decreases params@.len() - i,
    {
        let ghost pre = params@.subrange(0, i as int);
        assert(params@.subrange(0, i + 1).drop_last() == pre);
        match &params[i] {
            Param::Named { name, annotation } => match annotation {
                Some(a) => {
                    let ty = map_annotation(*a);
                    out.push(ParamBinding { name: name.clone(), ty });
                    assert(out@.map_values(|p: ParamBinding| p@) =~= params_binding(
                        pre,
                    ).push((name@, ty)));
                },
                None => {
                    proof {
                        lemma_params_prefix(params@, i + 1);
                    }
                    return Err(name.clone());
                },
            },
            _ => {},
        }
        i = i + 1;
    }
    assert(params@.subrange(0, i as int) == params@);
    Ok(ConstructorBinding { params: out })
}

/// Maps a class declaration to its binding: the opaque type named after the
/// class and one constructor signature per constructor. Fails on the first
/// constructor parameter without a type annotation.
pub fn map_class(class: &ClassDecl) -> (r: Result<BindingDescriptor, MappingError>)
    ensures
        match r {
            Ok(d) => members_unannotated(class.members@) is None && d@ == class_binding(*class),
            Err(e) => members_unannotated(class.members@) == Some(e.param_name@)
                && e.class_name@ == class.name@,
        },
{
    let mut ctors: Vec<ConstructorBinding> = Vec::new();
    let mut i: usize = 0;
    assert(class.members@.subrange(0, 0) =~= Seq::empty());
    while i < class.members.len()
        invariant
            i <= class.members@.len(),
            members_unannotated(class.members@.subrange(0, i as int)) is None,
            ctors@.map_values(|c: ConstructorBinding| c@) == members_binding(
                class.members@.subrange(0, i as int),
            ),
        decreases class.members@.len() - i,
    {
        let ghost pre = class.members@.subrange(0, i as int);
        assert(class.members@.subrange(0, i + 1).drop_last() == pre);
        match &class.members[i] {
            ClassMember::Constructor(ps) => match map_constructor(ps) {
                Ok(c) => {
                    ctors.push(c);
                    assert(ctors@.map_values(|c: ConstructorBinding| c@) =~= members_binding(
                        pre,
                    ).push(params_binding(ps@)));
                },
                Err(n) => {
                    proof {
                        lemma_members_prefix(class.members@, i + 1);
                    }
                    return Err(MappingError { class_name: class.name.clone(), param_name: n });
                },
            },
            _ => {},
        }
        i = i + 1;
    }
    assert(class.members@.subrange(0, i as int) == class.members@);
    Ok(BindingDescriptor { name: class.name.clone(), constructors: ctors })
}

/// Maps the class declarations of a module, in order, skipping every other
/// item. Fails with the first class that has an unannotated constructor parameter.
pub fn map_module(module: &SourceModule) -> (r: Result<Vec<BindingDescriptor>, MappingError>)
    ensures
        match r {
            Ok(ds) => module_binding(module.items@) == Ok::<_, (Seq<char>, Seq<char>)>(
                ds@.map_values(|d: BindingDescriptor| d@),
            ),
            Err(e) => module_binding(module.items@) == Err::<
                Seq<(Seq<char>, Seq<Seq<(Seq<char>, BindingType)>>)>,
                _,
            >((e.class_name@, e.param_name@)),
        },
{
    let mut out: Vec<BindingDescriptor> = Vec::new();
    let mut i: usize = 0;
    assert(module.items@.subrange(0, 0) =~= Seq::empty());
    assert(out@.map_values(|d: BindingDescriptor| d@) =~= Seq::empty());
    while i < module.items.len()
        invariant
            i <= module.items@.len(),
            module_binding(module.items@.subrange(0, i as int)) == Ok::<_, (Seq<char>, Seq<char>)>(
                out@.map_values(|d: BindingDescriptor| d@),
            ),
        decreases module.items@.len() - i,
    {
        let ghost pre = module.items@.subrange(0, i as int);
        assert(module.items@.subrange(0, i + 1).drop_last() == pre);
        match &module.items[i] {
            ModuleItem::Class(c) => match map_class(c) {
                Ok(d) => {
                    let ghost before = out@.map_values(|d: BindingDescriptor| d@);
                    out.push(d);
                    assert(out@.map_values(|d: BindingDescriptor| d@) =~= before.push(d@));
                },
                Err(e) => {
                    proof {
                        lemma_module_prefix(module.items@, i + 1);
                    }
                    return Err(e);
                },
            },
            _ => {},
        }
        i = i + 1;
    }
    assert(module.items@.subrange(0, i as int) == module.items@);
    Ok(out)
}

} // verus!
