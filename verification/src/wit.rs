//! The syntax tree of WIT files as the WIT type generator reads them.
use vstd::prelude::*;

verus! {

/// A WIT type.
pub enum WitType {
    I8,
    I16,
    I32,
    I64,
    U8,
    U16,
    U32,
    U64,
    F32,
    F64,
    Char,
    Bool,
    String,
    List(Box<WitType>),
    Option(Box<WitType>),
    Result(Box<WitType>, Box<WitType>),
    Record(Vec<RecordField>),
    Variant(Vec<VariantCase>),
    Enum(Vec<std::string::String>),
    Tuple(Vec<WitType>),
    Named(std::string::String),
}

/// A field of a record.
pub struct RecordField {
    pub name: std::string::String,
    pub typ: WitType,
}

/// A case of a variant, with its payload type if it has one.
pub struct VariantCase {
    pub name: std::string::String,
    pub typ: Option<WitType>,
}

/// A named type definition (`type`, `record` or `variant`).
pub struct TypeDef {
    pub name: std::string::String,
    pub typ: WitType,
}

/// A function parameter.
pub struct Parameter {
    pub name: std::string::String,
    pub typ: WitType,
}

/// A function declaration.
pub struct Function {
    pub name: std::string::String,
    pub params: Vec<Parameter>,
    pub results: Option<WitType>,
}

/// An interface: its type definitions and `use` statements (functions are not kept).
pub struct Interface {
    pub name: std::string::String,
    pub types: Vec<TypeDef>,
    pub functions: Vec<Function>,
    pub use_statements: Vec<std::string::String>,
}

/// An item of a world.
pub enum WorldItem {
    Import(std::string::String),
    Export(Interface),
    Include(std::string::String),
}

/// A world definition.
pub struct World {
    pub name: std::string::String,
    pub items: Vec<WorldItem>,
}

/// Abstract form of a WIT type.
pub enum TypeM {
    I8,
    I16,
    I32,
    I64,
    U8,
    U16,
    U32,
    U64,
    F32,
    F64,
    Char,
    Bool,
    Str,
    List(Box<TypeM>),
    Option(Box<TypeM>),
    Result(Box<TypeM>, Box<TypeM>),
    Record(Seq<(Seq<char>, TypeM)>),
    Variant(Seq<(Seq<char>, Option<TypeM>)>),
    Enum(Seq<Seq<char>>),
    Tuple(Seq<TypeM>),
    Named(Seq<char>),
}

/// Abstract form of a type definition.
pub struct TypeDefM {
    pub name: Seq<char>,
    pub typ: TypeM,
}

/// Abstract form of a function declaration.
pub struct FunctionM {
    pub name: Seq<char>,
    pub params: Seq<(Seq<char>, TypeM)>,
    pub results: Option<TypeM>,
}

/// Abstract form of an interface.
pub struct InterfaceM {
    pub name: Seq<char>,
    pub types: Seq<TypeDefM>,
    pub functions: Seq<FunctionM>,
    pub use_statements: Seq<Seq<char>>,
}

/// Abstract form of a world item.
pub enum WorldItemM {
    Import(Seq<char>),
    Export(InterfaceM),
    Include(Seq<char>),
}

/// Abstract form of a world.
pub struct WorldM {
    pub name: Seq<char>,
    pub items: Seq<WorldItemM>,
}

/// Abstract form of a type.
pub open spec fn type_view(t: WitType) -> TypeM
    decreases t,
{
    match t {
        WitType::I8 => TypeM::I8,
        WitType::I16 => TypeM::I16,
        WitType::I32 => TypeM::I32,
        WitType::I64 => TypeM::I64,
        WitType::U8 => TypeM::U8,
        WitType::U16 => TypeM::U16,
        WitType::U32 => TypeM::U32,
        WitType::U64 => TypeM::U64,
        WitType::F32 => TypeM::F32,
        WitType::F64 => TypeM::F64,
        WitType::Char => TypeM::Char,
        WitType::Bool => TypeM::Bool,
        WitType::String => TypeM::Str,
        WitType::List(b) => TypeM::List(Box::new(type_view(*b))),
        WitType::Option(b) => TypeM::Option(Box::new(type_view(*b))),
        WitType::Result(a, b) => TypeM::Result(Box::new(type_view(*a)), Box::new(type_view(*b))),
        WitType::Record(v) => TypeM::Record(fields_view(v@)),
        WitType::Variant(v) => TypeM::Variant(cases_view(v@)),
        WitType::Enum(v) => TypeM::Enum(v@.map_values(|x: std::string::String| x@)),
        WitType::Tuple(v) => TypeM::Tuple(types_view(v@)),
        WitType::Named(n) => TypeM::Named(n@),
    }
}

/// Abstract form of record fields.
pub open spec fn fields_view(s: Seq<RecordField>) -> Seq<(Seq<char>, TypeM)>
    decreases s,
{
    if s.len() == 0 {
        Seq::empty()
    } else {
        fields_view(s.drop_last()).push((s.last().name@, type_view(s.last().typ)))
    }
}

/// Abstract form of variant cases.
pub open spec fn cases_view(s: Seq<VariantCase>) -> Seq<(Seq<char>, Option<TypeM>)>
    decreases s,
{
    if s.len() == 0 {
        Seq::empty()
    } else {
        let c = s.last();
        let t = match c.typ {
            Some(x) => Some(type_view(x)),
            None => None,
        };
        cases_view(s.drop_last()).push((c.name@, t))
    }
}

/// Abstract form of a list of types.
pub open spec fn types_view(s: Seq<WitType>) -> Seq<TypeM>
    decreases s,
{
    if s.len() == 0 {
        Seq::empty()
    } else {
        types_view(s.drop_last()).push(type_view(s.last()))
    }
}


/// Abstract form of a type definition.
pub open spec fn typedef_view(t: TypeDef) -> TypeDefM {
    TypeDefM { name: t.name@, typ: type_view(t.typ) }
}

/// Abstract form of type definitions.
pub open spec fn typedefs_view(s: Seq<TypeDef>) -> Seq<TypeDefM> {
    s.map_values(|t: TypeDef| typedef_view(t))
}

/// Abstract form of a function declaration.
pub open spec fn function_view(f: Function) -> FunctionM {
    FunctionM {
        name: f.name@,
        params: f.params@.map_values(|p: Parameter| (p.name@, type_view(p.typ))),
        results: match f.results {
            Some(t) => Some(type_view(t)),
            None => None,
        },
    }
}

/// Abstract form of an interface.
pub open spec fn interface_view(i: Interface) -> InterfaceM {
    InterfaceM {
        name: i.name@,
        types: typedefs_view(i.types@),
        functions: i.functions@.map_values(|f: Function| function_view(f)),
        use_statements: i.use_statements@.map_values(|u: std::string::String| u@),
    }
}

/// Abstract form of a world item.
pub open spec fn world_item_view(w: WorldItem) -> WorldItemM {
    match w {
        WorldItem::Import(n) => WorldItemM::Import(n@),
        WorldItem::Export(i) => WorldItemM::Export(interface_view(i)),
        WorldItem::Include(n) => WorldItemM::Include(n@),
    }
}

/// Abstract form of a world.
pub open spec fn world_view(w: World) -> WorldM {
    WorldM { name: w.name@, items: w.items@.map_values(|i: WorldItem| world_item_view(i)) }
}

} // verus!
