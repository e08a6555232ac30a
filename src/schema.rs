//! The schema model: what one bean document holds.
use vstd::prelude::*;

verus! {

/// A type node, tagged by `name`: `"object"` (a reference through
/// `exact_type_name`), `"array"` (through `element_type`), `"Map"` (through
/// `key_type` and `value_type`), or any other name, taken as a native type.
pub struct TypeDescriptor {
    pub name: String,
    pub exact_type_name: Option<String>,
    pub element_type: Option<Box<TypeDescriptor>>,
    pub key_type: Option<Box<TypeDescriptor>>,
    pub value_type: Option<Box<TypeDescriptor>>,
}

/// One field of a record bean.
pub struct PropertyDescriptor {
    pub name: String,
    pub description: Option<String>,
    pub type_desc: TypeDescriptor,
}

/// One bean document. Lists that the document leaves out are empty.
pub struct SchemaDocument {
    pub name: String,
    pub description: Option<String>,
    pub is_enum: bool,
    pub super_type_names: Vec<String>,
    pub properties: Vec<PropertyDescriptor>,
    pub constants: Vec<String>,
}

/// Why a document could not be turned into a declaration.
#[derive(Debug, PartialEq, Eq, Structural)]
pub enum SchemaError {
    /// A type node lacks a field that its kind needs (`exactTypeName`,
    /// `elementType`, `keyType` or `valueType`).
    MalformedType,
}

impl TypeDescriptor {
    /// A native type such as `string`.
    pub fn primitive(name: String) -> (r: TypeDescriptor)
        ensures
            r.name == name,
            r.exact_type_name is None,
            r.element_type is None,
            r.key_type is None,
            r.value_type is None,
    {
        TypeDescriptor {
            name,
            exact_type_name: None,
            element_type: None,
            key_type: None,
            value_type: None,
        }
    }
}

} // verus!
