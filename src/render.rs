use vstd::prelude::*;
use vstd::string::*;

use crate::types::{BindingDescriptor, BindingType, ConstructorBinding, ParamBinding};

verus! {

pub open spec fn type_text(t: BindingType) -> Seq<char> {
    match t {
        BindingType::F64 => "f64"@,
        BindingType::Text => "String"@,
        BindingType::Bool => "bool"@,
        BindingType::Unit => "()"@,
        BindingType::Any => "JsValue"@,
    }
}

pub open spec fn param_text(p: (Seq<char>, BindingType)) -> Seq<char> {
    p.0 + ": "@ + type_text(p.1)
}

/// The parameters joined by `", "`.
pub open spec fn params_text(ps: Seq<(Seq<char>, BindingType)>) -> Seq<char>
    decreases ps.len(),
{
    if ps.len() == 0 {
        Seq::empty()
    } else if ps.len() == 1 {
        param_text(ps[0])
    } else {
        params_text(ps.drop_last()) + ", "@ + param_text(ps.last())
    }
}

pub open spec fn constructor_text(class_name: Seq<char>, ps: Seq<(Seq<char>, BindingType)>) -> Seq<
    char,
> {
    "#[wasm_bindgen(constructor)]\npub fn new("@ + params_text(ps) + ") -> "@ + class_name + ";\n"@
}

pub open spec fn constructors_text(
    class_name: Seq<char>,
    cs: Seq<Seq<(Seq<char>, BindingType)>>,
) -> Seq<char>
    decreases cs.len(),
{
    if cs.len() == 0 {
        Seq::empty()
    } else {
        constructors_text(class_name, cs.drop_last()) + constructor_text(class_name, cs.last())
    }
}

/// The opaque type of a class followed by its constructor signatures.
pub open spec fn descriptor_text(d: (Seq<char>, Seq<Seq<(Seq<char>, BindingType)>>)) -> Seq<char> {
    "#[wasm_bindgen]\npub type "@ + d.0 + ";\n"@ + constructors_text(d.0, d.1)
}

/// The items of one module's foreign block, one class after another.
pub open spec fn block_text(ds: Seq<(Seq<char>, Seq<Seq<(Seq<char>, BindingType)>>)>) -> Seq<char>
    decreases ds.len(),
{
    if ds.len() == 0 {
        Seq::empty()
    } else {
        block_text(ds.drop_last()) + descriptor_text(ds.last())
    }
}

pub fn binding_type_name(t: BindingType) -> (r: &'static str)
    ensures
        r@ == type_text(t),
{
    match t {
        BindingType::F64 => "f64",
        BindingType::Text => "String",
        BindingType::Bool => "bool",
        BindingType::Unit => "()",
        BindingType::Any => "JsValue",
    }
}

/// Renders one constructor signature.
pub fn render_constructor(class_name: &String, c: &ConstructorBinding) -> (r: String)
    ensures
        r@ == constructor_text(class_name@, c@),
{
    let mut out = String::from_str("#[wasm_bindgen(constructor)]\npub fn new(");
    let ghost head = out@;
    let mut i: usize = 0;
    while i < c.params.len()
        invariant
            i <= c.params@.len(),
            head == "#[wasm_bindgen(constructor)]\npub fn new("@,
            out@ == head + params_text(c@.subrange(0, i as int)),
        decreases c.params@.len() - i,
    {
        let ghost pre = c@.subrange(0, i as int);
        assert(c@.subrange(0, i + 1).drop_last() =~= pre);
        let p: &ParamBinding = &c.params[i];
        if i > 0 {
            out.append(", ");
        }
        out.append(p.name.as_str());
        out.append(": ");
        out.append(binding_type_name(p.ty));
        assert(c@.subrange(0, i + 1).last() == p@);
        if i == 0 {
            assert(c@.subrange(0, 1) =~= seq![p@]);
        }
        assert(out@ =~= head + params_text(c@.subrange(0, i + 1)));
        i = i + 1;
    }
    assert(c@.subrange(0, i as int) =~= c@);
    out.append(") -> ");
    out.append(class_name.as_str());
    out.append(";\n");
    assert(out@ =~= constructor_text(class_name@, c@));
    out
}

/// Renders a class's opaque type and its constructor signatures.
pub fn render_descriptor(d: &BindingDescriptor) -> (r: String)
    ensures
        r@ == descriptor_text(d@),
{
    let mut out = String::from_str("#[wasm_bindgen]\npub type ");
    out.append(d.name.as_str());
    out.append(";\n");
    let ghost head = out@;
    let ghost cs = d@.1;
    let mut i: usize = 0;
    assert(cs.subrange(0, 0) =~= Seq::empty());
    while i < d.constructors.len()
        invariant
            i <= d.constructors@.len(),
            cs == d@.1,
            cs.len() == d.constructors@.len(),
            out@ == head + constructors_text(d.name@, cs.subrange(0, i as int)),
        decreases d.constructors@.len() - i,
    {
        assert(cs.subrange(0, i + 1).drop_last() =~= cs.subrange(0, i as int));
        let s = render_constructor(&d.name, &d.constructors[i]);
        out.append(s.as_str());
        assert(out@ =~= head + constructors_text(d.name@, cs.subrange(0, i + 1)));
        i = i + 1;
    }
    assert(cs.subrange(0, i as int) =~= cs);
    out
}

/// Aggregates a module's bindings into the items of one foreign block.
pub fn render_block(ds: &Vec<BindingDescriptor>) -> (r: String)
    ensures
        r@ == block_text(ds@.map_values(|d: BindingDescriptor| d@)),
{
    let ghost vs = ds@.map_values(|d: BindingDescriptor| d@);
    let mut out = String::new();
    let mut i: usize = 0;
    assert(vs.subrange(0, 0) =~= Seq::empty());
    while i < ds.len()
        invariant
            i <= ds@.len(),
            vs == ds@.map_values(|d: BindingDescriptor| d@),
            out@ == block_text(vs.subrange(0, i as int)),
        decreases ds@.len() - i,
    {
        assert(vs.subrange(0, i + 1).drop_last() =~= vs.subrange(0, i as int));
        let s = render_descriptor(&ds[i]);
        out.append(s.as_str());
        i = i + 1;
    }
    assert(vs.subrange(0, i as int) =~= vs);
    out
}

} // verus!
