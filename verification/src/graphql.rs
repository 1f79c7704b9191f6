use vstd::prelude::*;
use vstd::string::StringExecFns;
use vstd::string::StrSliceExecFns;

use crate::ast::{DuTypeDef, RecordTypeDef, TypeDefinition, TypeExpr, VariantDef};
use crate::envcfg::{to_camel_case, to_pascal_case};
use crate::provider::{GeneratedModule, GeneratedTypes, ProviderError};

verus! {

broadcast use vstd::std_specs::vec::group_vec_axioms;

/// The kind of a type in an introspected schema.
#[derive(Debug, Clone, Copy, PartialEq, Eq, Structural)]
pub enum TypeKind {
    Scalar,
    Object,
    Interface,
    Union,
    Enum,
    InputObject,
    List,
    NonNull,
}

/// A reference to a type: a name, or a list or non-null wrapper around
/// another reference.
#[derive(Debug)]
pub struct TypeRef {
    pub name: Option<String>,
    pub kind: Option<TypeKind>,
    pub of_type: Option<Box<TypeRef>>,
}

impl Clone for TypeRef {
    /// A deep copy of the reference chain.
    fn clone(&self) -> (r: TypeRef)
        decreases *self,
    {
        TypeRef {
            name: match &self.name {
                Some(n) => Some(n.clone()),
                None => None,
            },
            kind: self.kind,
            of_type: match &self.of_type {
                Some(t) => Some(Box::new((**t).clone())),
                None => None,
            },
        }
    }
}

/// The root of an introspection response.
#[derive(Debug)]
pub struct IntrospectionResponse {
    pub data: Option<IntrospectionData>,
}

/// The schema field of an introspection response.
#[derive(Debug)]
pub struct IntrospectionData {
    pub schema: IntrospectionSchema,
}

/// A whole introspected schema.
#[derive(Debug)]
pub struct IntrospectionSchema {
    pub query_type: Option<TypeRef>,
    pub mutation_type: Option<TypeRef>,
    pub subscription_type: Option<TypeRef>,
    pub types: Vec<FullType>,
    pub directives: Option<Vec<Directive>>,
}

/// One introspected type.
#[derive(Debug)]
pub struct FullType {
    pub kind: TypeKind,
    pub name: Option<String>,
    pub description: Option<String>,
    pub fields: Option<Vec<Field>>,
    pub input_fields: Option<Vec<InputValue>>,
    pub interfaces: Option<Vec<TypeRef>>,
    pub enum_values: Option<Vec<EnumValue>>,
    pub possible_types: Option<Vec<TypeRef>>,
}

/// One field of an object or interface type.
#[derive(Debug)]
pub struct Field {
    pub name: String,
    pub description: Option<String>,
    pub args: Vec<InputValue>,
    pub field_type: TypeRef,
    pub is_deprecated: Option<bool>,
    pub deprecation_reason: Option<String>,
}

/// One argument or input-object field.
#[derive(Debug)]
pub struct InputValue {
    pub name: String,
    pub description: Option<String>,
    pub input_type: TypeRef,
    pub default_value: Option<String>,
}

/// One value of an introspected enumeration.
#[derive(Debug)]
pub struct EnumValue {
    pub name: String,
    pub description: Option<String>,
    pub is_deprecated: Option<bool>,
    pub deprecation_reason: Option<String>,
}

/// One directive definition.
#[derive(Debug)]
pub struct Directive {
    pub name: String,
    pub description: Option<String>,
    pub locations: Vec<String>,
    pub args: Vec<InputValue>,
}

/// The surface-language name of an introspected scalar: the built-in
/// scalars map to the core types, any other scalar to its own name.
pub open spec fn scalar_spec(name: Seq<char>) -> Seq<char> {
    if name == "String"@ || name == "ID"@ {
        "string"@
    } else if name == "Int"@ {
        "int"@
    } else if name == "Float"@ {
        "float"@
    } else if name == "Boolean"@ {
        "bool"@
    } else {
        name
    }
}

/// Runtime mapping matching `scalar_spec`.
pub fn graphql_scalar_to_fusabi(scalar: &str) -> (r: String)
    ensures
        r@ == scalar_spec(scalar@),
{
    if crate::value::str_eq(scalar, "String") || crate::value::str_eq(scalar, "ID") {
        String::from_str("string")
    } else if crate::value::str_eq(scalar, "Int") {
        String::from_str("int")
    } else if crate::value::str_eq(scalar, "Float") {
        String::from_str("float")
    } else if crate::value::str_eq(scalar, "Boolean") {
        String::from_str("bool")
    } else {
        String::from_str(scalar)
    }
}

impl TypeRef {
    /// The innermost named type, unwrapping list and non-null
    /// wrappers.
    pub fn base_name(&self) -> (r: Option<&str>)
        decreases *self,
    {
        let wrapped = matches!(self.kind, Some(TypeKind::NonNull) | Some(TypeKind::List));
        if wrapped {
            match &self.of_type {
                Some(t) => t.base_name(),
                None => None,
            }
        } else {
            match &self.name {
                Some(n) => Some(n.as_str()),
                None => None,
            }
        }
    }

    /// Whether a value of this type is required.
    pub fn is_non_null(&self) -> (r: bool)
        ensures
            r == (self.kind == Some(TypeKind::NonNull)),
    {
        matches!(self.kind, Some(TypeKind::NonNull))
    }

    /// Whether this is a list type, looking through a non-null
    /// wrapper.
    pub fn is_list(&self) -> (r: bool)
        decreases *self,
    {
        match self.kind {
            Some(TypeKind::List) => true,
            Some(TypeKind::NonNull) => match &self.of_type {
                Some(t) => t.is_list(),
                None => false,
            },
            _ => false,
        }
    }

    /// The surface-language type: a nullable type becomes an option,
    /// and a list becomes a list of its element type.
    pub fn to_fusabi_type(&self) -> (r: String)
        decreases *self, 1int,
    {
        match self.kind {
            Some(TypeKind::NonNull) => match &self.of_type {
                Some(t) => t.to_fusabi_type_inner(),
                None => String::from_str("any"),
            },
            _ => {
                let mut s = self.to_fusabi_type_inner();
                s.append(" option");
                s
            },
        }
    }

    /// The type without the outer nullability marker.
    pub fn to_fusabi_type_inner(&self) -> (r: String)
        decreases *self, 0int,
    {
        match self.kind {
            Some(TypeKind::List) => match &self.of_type {
                Some(t) => {
                    let mut s = t.to_fusabi_type();
                    s.append(" list");
                    s
                },
                None => {
                    let mut s = String::from_str("any");
                    s.append(" list");
                    s
                },
            },
            Some(TypeKind::NonNull) => match &self.of_type {
                Some(t) => t.to_fusabi_type_inner(),
                None => String::from_str("any"),
            },
            _ => match &self.name {
                Some(n) => graphql_scalar_to_fusabi(n.as_str()),
                None => graphql_scalar_to_fusabi("any"),
            },
        }
    }
}

impl FullType {
    /// Whether this is one of the reflection types every schema
    /// carries, named with a `__` prefix.
    pub fn is_builtin(&self) -> (r: bool)
        ensures
            r ==> self.name is Some,
    {
        match &self.name {
            Some(n) => {
                let bytes = n.as_str().as_bytes();
                bytes.len() >= 2 && bytes[0] == 0x5f && bytes[1] == 0x5f
            },
            None => false,
        }
    }

    /// Whether this is a scalar type.
    pub fn is_scalar(&self) -> (r: bool)
        ensures
            r == (self.kind == TypeKind::Scalar),
    {
        matches!(self.kind, TypeKind::Scalar)
    }
}

/// The introspection-based type provider: it turns an introspected
/// schema into records for objects and inputs and unions for
/// enumerations and union types.
#[derive(Debug)]
pub struct GraphQLProvider {
}

impl GraphQLProvider {
    /// A provider instance.
    pub fn new() -> (r: GraphQLProvider)
    {
        GraphQLProvider {  }
    }

    /// The provider's registered name.
    pub fn name(&self) -> (r: &'static str)
        ensures
            r@ == "GraphQLProvider"@,
    {
        "GraphQLProvider"
    }

    /// Walk the schema's types once: objects and interfaces become
    /// records in a `Types` module, input objects records in an
    /// `Inputs` module, enumerations unions in an `Enums` module, and
    /// union types unions beside the records. Reflection and scalar
    /// types are skipped.
    pub fn generate_from_schema(&self, schema: &IntrospectionSchema, namespace: &str)
        -> (r: Result<GeneratedTypes, ProviderError>)
    {
        let mut types_module: Vec<TypeDefinition> = Vec::new();
        let mut inputs_module: Vec<TypeDefinition> = Vec::new();
        let mut enums_module: Vec<TypeDefinition> = Vec::new();
        let mut i: usize = 0;
        while i < schema.types.len()
            decreases schema.types@.len() - i,
        {
            let full_type = &schema.types[i];
            i = i + 1;
            if full_type.is_builtin() {
                continue;
            }
            if full_type.is_scalar() {
                continue;
            }
            let tname = match &full_type.name {
                Some(n) => n.as_str(),
                None => {
                    continue;
                },
            };
            match full_type.kind {
                TypeKind::Object | TypeKind::Interface => {
                    if let Some(td) = self.object_to_record(tname, full_type)? {
                        types_module.push(td);
                    }
                },
                TypeKind::InputObject => {
                    if let Some(td) = self.input_to_record(tname, full_type)? {
                        inputs_module.push(td);
                    }
                },
                TypeKind::Enum => {
                    if let Some(td) = self.enum_to_du(tname, full_type)? {
                        enums_module.push(td);
                    }
                },
                TypeKind::Union => {
                    if let Some(td) = self.union_to_du(tname, full_type)? {
                        types_module.push(td);
                    }
                },
                _ => {},
            }
        }
        let mut modules: Vec<GeneratedModule> = Vec::new();
        if types_module.len() > 0 {
            let mut path: Vec<String> = Vec::new();
            path.push(String::from_str(namespace));
            path.push(String::from_str("Types"));
            modules.push(GeneratedModule { path, types: types_module });
        }
        if inputs_module.len() > 0 {
            let mut path: Vec<String> = Vec::new();
            path.push(String::from_str(namespace));
            path.push(String::from_str("Inputs"));
            modules.push(GeneratedModule { path, types: inputs_module });
        }
        if enums_module.len() > 0 {
            let mut path: Vec<String> = Vec::new();
            path.push(String::from_str(namespace));
            path.push(String::from_str("Enums"));
            modules.push(GeneratedModule { path, types: enums_module });
        }
        Ok(GeneratedTypes { modules, root_types: Vec::new() })
    }

    /// An object or interface type as a record: one field per schema
    /// field, names camel-cased; a type without fields makes nothing.
    pub fn object_to_record(&self, name: &str, full_type: &FullType) -> (r: Result<
        Option<TypeDefinition>,
        ProviderError,
    >)
        ensures
            r matches Ok(Some(td)) ==> (td matches TypeDefinition::Record(rec)
                && rec.name@ == name@
                && (full_type.fields matches Some(fs)
                    && rec.fields@.len() == fs@.len())),
            full_type.fields is None ==> (r matches Ok(o) && o is None),
    {
        let fields = match &full_type.fields {
            Some(f) => f,
            None => {
                return Ok(None);
            },
        };
        if fields.len() == 0 {
            return Ok(None);
        }
        let mut record_fields: Vec<(String, TypeExpr)> = Vec::new();
        let mut i: usize = 0;
        while i < fields.len()
            invariant
                i <= fields@.len(),
                record_fields@.len() == i,
            decreases fields@.len() - i,
        {
            let fname = to_camel_case(fields[i].name.as_str());
            let ftype = TypeExpr::Named(fields[i].field_type.to_fusabi_type());
            record_fields.push((fname, ftype));
            i = i + 1;
        }
        Ok(Some(TypeDefinition::Record(RecordTypeDef {
            name: String::from_str(name),
            fields: record_fields,
        })))
    }

    /// An input-object type as a record named with an `Input` suffix.
    pub fn input_to_record(&self, name: &str, full_type: &FullType) -> (r: Result<
        Option<TypeDefinition>,
        ProviderError,
    >)
        ensures
            r matches Ok(Some(td)) ==> (td matches TypeDefinition::Record(rec)
                && (full_type.input_fields matches Some(fs)
                    && rec.fields@.len() == fs@.len())),
            full_type.input_fields is None ==> (r matches Ok(o) && o is None),
    {
        let input_fields = match &full_type.input_fields {
            Some(f) => f,
            None => {
                return Ok(None);
            },
        };
        if input_fields.len() == 0 {
            return Ok(None);
        }
        let mut record_fields: Vec<(String, TypeExpr)> = Vec::new();
        let mut i: usize = 0;
        while i < input_fields.len()
            invariant
                i <= input_fields@.len(),
                record_fields@.len() == i,
            decreases input_fields@.len() - i,
        {
            let fname = to_camel_case(input_fields[i].name.as_str());
            let ftype = TypeExpr::Named(input_fields[i].input_type.to_fusabi_type());
            record_fields.push((fname, ftype));
            i = i + 1;
        }
        let base = trim_input_suffix(name);
        let mut rec_name = base;
        rec_name.append("Input");
        Ok(Some(TypeDefinition::Record(RecordTypeDef {
            name: rec_name,
            fields: record_fields,
        })))
    }

    /// An enumeration as a union of field-free constructors, skipping
    /// deprecated values; names are pascal-cased.
    pub fn enum_to_du(&self, name: &str, full_type: &FullType) -> (r: Result<
        Option<TypeDefinition>,
        ProviderError,
    >)
        ensures
            r matches Ok(Some(td)) ==> (td matches TypeDefinition::Du(du)
                && du.name@ == name@),
            full_type.enum_values is None ==> (r matches Ok(o) && o is None),
    {
        let enum_values = match &full_type.enum_values {
            Some(v) => v,
            None => {
                return Ok(None);
            },
        };
        if enum_values.len() == 0 {
            return Ok(None);
        }
        let mut variants: Vec<VariantDef> = Vec::new();
        let mut i: usize = 0;
        while i < enum_values.len()
            invariant
                i <= enum_values@.len(),
            decreases enum_values@.len() - i,
        {
            let deprecated = match enum_values[i].is_deprecated {
                Some(d) => d,
                None => false,
            };
            if !deprecated {
                variants.push(VariantDef {
                    name: to_pascal_case(enum_values[i].name.as_str()),
                    fields: Vec::new(),
                });
            }
            i = i + 1;
        }
        Ok(Some(TypeDefinition::Du(DuTypeDef {
            name: String::from_str(name),
            variants,
        })))
    }

    /// A union type as a union with one single-field constructor per
    /// member type.
    pub fn union_to_du(&self, name: &str, full_type: &FullType) -> (r: Result<
        Option<TypeDefinition>,
        ProviderError,
    >)
        ensures
            r matches Ok(Some(td)) ==> (td matches TypeDefinition::Du(du)
                && du.name@ == name@),
            full_type.possible_types is None ==> (r matches Ok(o) && o is None),
    {
        let possible_types = match &full_type.possible_types {
            Some(t) => t,
            None => {
                return Ok(None);
            },
        };
        if possible_types.len() == 0 {
            return Ok(None);
        }
        let mut variants: Vec<VariantDef> = Vec::new();
        let mut i: usize = 0;
        while i < possible_types.len()
            invariant
                i <= possible_types@.len(),
            decreases possible_types@.len() - i,
        {
            if let Some(member) = &possible_types[i].name {
                let mut fields: Vec<TypeExpr> = Vec::new();
                fields.push(TypeExpr::Named(member.clone()));
                variants.push(VariantDef { name: member.clone(), fields });
            }
            i = i + 1;
        }
        Ok(Some(TypeDefinition::Du(DuTypeDef {
            name: String::from_str(name),
            variants,
        })))
    }
}

/// The name with one trailing `Input` suffix removed, if present.
fn trim_input_suffix(name: &str) -> (r: String)
{
    if !name.is_ascii() {
        return String::from_str(name);
    }
    let n = name.unicode_len();
    if n < 5 {
        return String::from_str(name);
    }
    let tail = name.substring_ascii(n - 5, n);
    if crate::value::str_eq(tail, "Input") {
        String::from_str(name.substring_ascii(0, n - 5))
    } else {
        String::from_str(name)
    }
}

} // verus!
