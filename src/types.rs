use vstd::prelude::*;

verus! {

/// The primitive keyword kinds a constructor parameter annotation can carry.
#[derive(Clone, Copy, Debug, PartialEq, Eq, Structural)]
pub enum KeywordKind {
    Number,
    Str,
    Boolean,
    Void,
    Other,
}

/// A parameter's type annotation: a keyword type, or anything compound
/// (arrays, unions, generics, object types, references to other types).
#[derive(Clone, Copy, Debug, PartialEq, Eq, Structural)]
pub enum TypeAnnotation {
    Keyword(KeywordKind),
    Compound,
}

/// One constructor parameter as it stands in the source module.
#[derive(Clone, Debug)]
pub enum Param {
    /// A plain named parameter, with its annotation if it has one.
    Named { name: String, annotation: Option<TypeAnnotation> },
    /// A parameter-property shorthand (`private x: T`).
    Property,
    /// A destructuring or rest pattern.
    Pattern,
}

/// One member of a class body.
#[derive(Clone, Debug)]
pub enum ClassMember {
    Constructor(Vec<Param>),
    Property(String),
    Method(String),
    Other,
}

/// A class declaration: its identifier and its members in source order.
#[derive(Clone, Debug)]
pub struct ClassDecl {
    pub name: String,
    pub members: Vec<ClassMember>,
}

/// One top-level item of a module.
#[derive(Clone, Debug)]
pub enum ModuleItem {
    /// `import ... from "<specifier>"`
    Import(String),
    /// `export * from "<specifier>"`
    ExportAll(String),
    Class(ClassDecl),
    OtherDecl,
    OtherStatement,
    OtherDirective,
}

/// A module's top-level items in source order.
#[derive(Clone, Debug)]
pub struct SourceModule {
    pub items: Vec<ModuleItem>,
}

/// The binding-side type a parameter maps to.
#[derive(Clone, Copy, Debug, PartialEq, Eq, Structural)]
pub enum BindingType {
    /// double-precision float
    F64,
    /// owned string
    Text,
    Bool,
    Unit,
    /// the opaque catch-all
    Any,
}

#[derive(Clone, Debug)]
pub struct ParamBinding {
    pub name: String,
    pub ty: BindingType,
}

#[derive(Clone, Debug)]
pub struct ConstructorBinding {
    pub params: Vec<ParamBinding>,
}

/// The binding generated for one class: its opaque type, named after the
/// class, and one constructor signature per constructor it declares.
#[derive(Clone, Debug)]
pub struct BindingDescriptor {
    pub name: String,
    pub constructors: Vec<ConstructorBinding>,
}

/// A constructor parameter without a type annotation.
#[derive(Clone, Debug)]
pub struct MappingError {
    pub class_name: String,
    pub param_name: String,
}

impl View for ParamBinding {
    type V = (Seq<char>, BindingType);

    open spec fn view(&self) -> (Seq<char>, BindingType) {
        (self.name@, self.ty)
    }
}

impl View for ConstructorBinding {
    type V = Seq<(Seq<char>, BindingType)>;

    open spec fn view(&self) -> Seq<(Seq<char>, BindingType)> {
        self.params@.map_values(|p: ParamBinding| p@)
    }
}

impl View for BindingDescriptor {
    type V = (Seq<char>, Seq<Seq<(Seq<char>, BindingType)>>);

    open spec fn view(&self) -> (Seq<char>, Seq<Seq<(Seq<char>, BindingType)>>) {
        (self.name@, self.constructors@.map_values(|c: ConstructorBinding| c@))
    }
}

} // verus!
