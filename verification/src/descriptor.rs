//! The descriptor model: what the module tells the host about itself.
//!
//! A type descriptor records one component or resource data shape; a system
//! descriptor records one logic unit, its ordering class and its ordered
//! argument list. The model is built once, before the boundary is used, and
//! every boundary accessor is a pure lookup over it.

use vstd::prelude::*;

verus! {

/// Numeric identity the host assigns to a component or resource type at load.
pub type ComponentId = u16;

/// Whether a data shape admits many per-entity instances (component) or
/// exactly one global instance (resource).
#[derive(Clone, Copy, PartialEq, Eq, Structural, Debug)]
pub enum ComponentType {
    Component,
    Resource,
}

/// How the host must fill one slot of a system's argument array.
#[derive(Clone, Copy, PartialEq, Eq, Structural, Debug)]
pub enum ArgType {
    DataAccessMut,
    DataAccessRef,
    Query,
}

/// Direct access to one named type, exclusive when `mutable`.
#[derive(Debug)]
pub struct DirectAccess {
    pub component: Vec<u8>,
    pub mutable: bool,
}

impl DirectAccess {
    pub open spec fn arg_type(&self) -> ArgType {
        if self.mutable {
            ArgType::DataAccessMut
        } else {
            ArgType::DataAccessRef
        }
    }
}

/// One system argument: direct access to a single type, or a query whose
/// template is an ordered list of direct sub-arguments.
#[derive(Debug)]
pub enum ArgDescriptor {
    DataAccessDirect(DirectAccess),
    Query { inputs: Vec<DirectAccess> },
}

impl ArgDescriptor {
    pub open spec fn arg_type(&self) -> ArgType {
        match self {
            ArgDescriptor::DataAccessDirect(direct) => direct.arg_type(),
            ArgDescriptor::Query { .. } => ArgType::Query,
        }
    }
}

/// A registered component or resource type. `size` and `align` are its true
/// storage requirements as the compiled module sees them; a resource also
/// carries the byte image of its default instance.
#[derive(Debug)]
pub struct TypeDescriptor {
    pub name: Vec<u8>,
    pub kind: ComponentType,
    pub size: usize,
    pub align: usize,
    pub default_image: Vec<u8>,
}

impl TypeDescriptor {
    /// A resource's default instance fills exactly its storage size.
    pub open spec fn wf(&self) -> bool {
        self.kind is Resource ==> self.default_image@.len() == self.size
    }

    pub fn check_wf(&self) -> (r: bool)
        ensures
            r == self.wf(),
    {
        match self.kind {
            ComponentType::Resource => self.default_image.len() == self.size,
            ComponentType::Component => true,
        }
    }
}

/// One system: its name, ordering class (`is_once` for one-shot startup
/// systems, otherwise per-frame) and ordered argument list. Declaration
/// order within the model is the system's numeric index.
#[derive(Debug)]
pub struct SystemDescriptor {
    pub name: Vec<u8>,
    pub is_once: bool,
    pub inputs: Vec<ArgDescriptor>,
}

/// The whole descriptor model: ordered type list and ordered system list,
/// both in declaration order.
#[derive(Debug)]
pub struct ModuleModel {
    pub types: Vec<TypeDescriptor>,
    pub systems: Vec<SystemDescriptor>,
}

/// No type at an index below `i` is named `name`.
pub open spec fn no_match_before(types: Seq<TypeDescriptor>, name: Seq<u8>, i: int) -> bool {
    forall|k: int| 0 <= k < i ==> (#[trigger] types[k].name)@ != name
}

/// `i` is the first index whose type is named `name` — the branch of the
/// linear string-identity chain that answers a lookup.
pub open spec fn is_first_match(types: Seq<TypeDescriptor>, name: Seq<u8>, i: int) -> bool {
    &&& 0 <= i < types.len()
    &&& types[i].name@ == name
    &&& no_match_before(types, name, i)
}

pub open spec fn has_type(types: Seq<TypeDescriptor>, name: Seq<u8>) -> bool {
    exists|i: int| 0 <= i < types.len() && (#[trigger] types[i].name)@ == name
}

/// No resource at an index below `i` is named `name`.
pub open spec fn no_resource_match_before(
    types: Seq<TypeDescriptor>,
    name: Seq<u8>,
    i: int,
) -> bool {
    forall|k: int|
        0 <= k < i ==> ((#[trigger] types[k].name)@ != name || !(types[k].kind is Resource))
}

/// `i` is the first index holding a resource named `name`.
pub open spec fn is_first_resource_match(
    types: Seq<TypeDescriptor>,
    name: Seq<u8>,
    i: int,
) -> bool {
    &&& 0 <= i < types.len()
    &&& types[i].name@ == name
    &&& types[i].kind is Resource
    &&& no_resource_match_before(types, name, i)
}

pub open spec fn has_resource(types: Seq<TypeDescriptor>, name: Seq<u8>) -> bool {
    exists|i: int|
        0 <= i < types.len() && (#[trigger] types[i].name)@ == name && types[i].kind is Resource
}

impl ModuleModel {
    /// Every registered type is well formed.
    pub open spec fn wf(&self) -> bool {
        forall|i: int| 0 <= i < self.types@.len() ==> (#[trigger] self.types@[i]).wf()
    }

    pub fn check_wf(&self) -> (r: bool)
        ensures
            r == self.wf(),
    {
        let mut i: usize = 0;
        while i < self.types.len()
            invariant
                i <= self.types@.len(),
                forall|k: int| 0 <= k < i ==> (#[trigger] self.types@[k]).wf(),
            decreases self.types@.len() - i,
        {
            if !self.types[i].check_wf() {
                return false;
            }
            i += 1;
        }
        true
    }
}

} // verus!
