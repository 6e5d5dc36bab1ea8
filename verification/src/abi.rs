//! The boundary surface the host enumerates: pure lookups over the
//! descriptor model.
//!
//! Name lookups walk a linear chain of string-identity comparisons — a
//! deliberate choice, since they run only during startup and id assignment.
//! Every accessor that the generated boundary must abort on (unknown name,
//! index out of range, non-query argument) returns `None` here; the exported
//! shim aborts the process on `None`, treating it as host/module version
//! skew. `resource_init` instead answers with a soft status, since the host
//! probes every module for every resource.

use vstd::prelude::*;
use crate::descriptor::ArgDescriptor;
use crate::descriptor::ArgType;
use crate::descriptor::ComponentType;
use crate::descriptor::ModuleModel;
use crate::descriptor::has_resource;
use crate::descriptor::has_type;
use crate::descriptor::is_first_match;
use crate::descriptor::is_first_resource_match;
use crate::descriptor::no_match_before;
use crate::descriptor::no_resource_match_before;
use crate::names::clone_name;
use crate::names::name_eq;

verus! {

impl ModuleModel {
    /// Index of the first type named `name`, or `None`: the linear
    /// string-identity chain.
    pub fn find_type(&self, name: &Vec<u8>) -> (r: Option<usize>)
        ensures
            r is Some <==> has_type(self.types@, name@),
            r matches Some(i) ==> is_first_match(self.types@, name@, i as int),
    {
        let mut i: usize = 0;
        while i < self.types.len()
            invariant
                i <= self.types@.len(),
                no_match_before(self.types@, name@, i as int),
            decreases self.types@.len() - i,
        {
            if name_eq(&self.types[i].name, name) {
                return Some(i);
            }
            i += 1;
        }
        None
    }

    /// Index of the first resource named `name`, or `None`.
    fn find_resource(&self, name: &Vec<u8>) -> (r: Option<usize>)
        ensures
            r is Some <==> has_resource(self.types@, name@),
            r matches Some(i) ==> is_first_resource_match(self.types@, name@, i as int),
    {
        let mut i: usize = 0;
        while i < self.types.len()
            invariant
                i <= self.types@.len(),
                no_resource_match_before(self.types@, name@, i as int),
            decreases self.types@.len() - i,
        {
            let is_resource = match self.types[i].kind {
                ComponentType::Resource => true,
                ComponentType::Component => false,
            };
            if is_resource && name_eq(&self.types[i].name, name) {
                return Some(i);
            }
            i += 1;
        }
        None
    }

    /// Name of the type at `index`; enumeration order is declaration order.
    /// `None` past the end tells the host the enumeration is over.
    pub fn component_string_id(&self, index: usize) -> (r: Option<Vec<u8>>)
        ensures
            r is Some <==> index < self.types@.len(),
            r matches Some(name) ==> name@ == self.types@[index as int].name@,
    {
        if index < self.types.len() {
            Some(clone_name(&self.types[index].name))
        } else {
            None
        }
    }

    /// Storage size of the named type; `None` (abort at the boundary) on an
    /// unknown name.
    pub fn component_size(&self, name: &Vec<u8>) -> (r: Option<usize>)
        ensures
            r is Some <==> has_type(self.types@, name@),
            forall|i: int|
                is_first_match(self.types@, name@, i) ==> r == Some(self.types@[i].size),
    {
        match self.find_type(name) {
            Some(i) => Some(self.types[i].size),
            None => None,
        }
    }

    /// Storage alignment of the named type; `None` on an unknown name.
    pub fn component_align(&self, name: &Vec<u8>) -> (r: Option<usize>)
        ensures
            r is Some <==> has_type(self.types@, name@),
            forall|i: int|
                is_first_match(self.types@, name@, i) ==> r == Some(self.types@[i].align),
    {
        match self.find_type(name) {
            Some(i) => Some(self.types[i].align),
            None => None,
        }
    }

    /// Whether the named type is a component or a resource; `None` on an
    /// unknown name.
    pub fn component_type(&self, name: &Vec<u8>) -> (r: Option<ComponentType>)
        ensures
            r is Some <==> has_type(self.types@, name@),
            forall|i: int|
                is_first_match(self.types@, name@, i) ==> r == Some(self.types@[i].kind),
    {
        match self.find_type(name) {
            Some(i) => Some(self.types[i].kind),
            None => None,
        }
    }

    /// Writes the named resource's default instance into `dest` and answers
    /// status 0; an unknown or non-resource name leaves `dest` alone and
    /// answers status 1 — an expected "not mine" probe, not a fault.
    pub fn resource_init(&self, name: &Vec<u8>, dest: &mut Vec<u8>) -> (status: i32)
        ensures
            status == 0 <==> has_resource(self.types@, name@),
            status == 0 || status == 1,
            forall|i: int|
                is_first_resource_match(self.types@, name@, i)
                    ==> final(dest)@ == self.types@[i].default_image@,
            !has_resource(self.types@, name@) ==> final(dest)@ == old(dest)@,
    {
        match self.find_resource(name) {
            Some(i) => {
                *dest = clone_name(&self.types[i].default_image);
                0
            },
            None => 1,
        }
    }

    /// How many systems the module exports.
    pub fn systems_len(&self) -> (r: usize)
        ensures
            r == self.systems@.len(),
    {
        self.systems.len()
    }

    /// Ordering class of the system at `index`: `true` for a one-shot
    /// startup system, `false` for a per-frame system. `None` out of range.
    pub fn system_is_once(&self, index: usize) -> (r: Option<bool>)
        ensures
            r is Some <==> index < self.systems@.len(),
            r matches Some(once) ==> once == self.systems@[index as int].is_once,
    {
        if index < self.systems.len() {
            Some(self.systems[index].is_once)
        } else {
            None
        }
    }

    /// Number of arguments of the system at `index`. `None` out of range.
    pub fn system_args_len(&self, index: usize) -> (r: Option<usize>)
        ensures
            r is Some <==> index < self.systems@.len(),
            r matches Some(n) ==> n == self.systems@[index as int].inputs@.len(),
    {
        if index < self.systems.len() {
            Some(self.systems[index].inputs.len())
        } else {
            None
        }
    }

    /// Classification of one system argument: exclusive access, shared
    /// access, or a query. `None` out of range.
    pub fn system_arg_type(&self, index: usize, arg: usize) -> (r: Option<ArgType>)
        ensures
            r is Some <==> (index < self.systems@.len() && arg
                < self.systems@[index as int].inputs@.len()),
            r matches Some(t) ==> t == self.systems@[index as int].inputs@[arg as int].arg_type(),
    {
        if index < self.systems.len() && arg < self.systems[index].inputs.len() {
            match &self.systems[index].inputs[arg] {
                ArgDescriptor::DataAccessDirect(direct) => {
                    if direct.mutable {
                        Some(ArgType::DataAccessMut)
                    } else {
                        Some(ArgType::DataAccessRef)
                    }
                },
                ArgDescriptor::Query { .. } => Some(ArgType::Query),
            }
        } else {
            None
        }
    }

    /// Type identity of a direct-access argument; defined only for non-query
    /// arguments — `None` otherwise.
    pub fn system_arg_component(&self, index: usize, arg: usize) -> (r: Option<Vec<u8>>)
        ensures
            r is Some <==> (index < self.systems@.len() && arg
                < self.systems@[index as int].inputs@.len()
                && self.systems@[index as int].inputs@[arg as int] is DataAccessDirect),
            r matches Some(name) ==> (self.systems@[index as int].inputs@[arg as int] matches
            ArgDescriptor::DataAccessDirect(direct) && name@ == direct.component@),
    {
        if index < self.systems.len() && arg < self.systems[index].inputs.len() {
            match &self.systems[index].inputs[arg] {
                ArgDescriptor::DataAccessDirect(direct) => Some(clone_name(&direct.component)),
                ArgDescriptor::Query { .. } => None,
            }
        } else {
            None
        }
    }

    /// Number of sub-arguments of a query argument; defined only for query
    /// arguments — `None` otherwise.
    pub fn system_query_args_len(&self, index: usize, arg: usize) -> (r: Option<usize>)
        ensures
            r is Some <==> (index < self.systems@.len() && arg
                < self.systems@[index as int].inputs@.len()
                && self.systems@[index as int].inputs@[arg as int] is Query),
            r matches Some(n) ==> (self.systems@[index as int].inputs@[arg as int] matches
            ArgDescriptor::Query { inputs } && n == inputs@.len()),
    {
        if index < self.systems.len() && arg < self.systems[index].inputs.len() {
            match &self.systems[index].inputs[arg] {
                ArgDescriptor::Query { inputs } => Some(inputs.len()),
                ArgDescriptor::DataAccessDirect(_) => None,
            }
        } else {
            None
        }
    }

    /// Classification of one query sub-argument: exclusive or shared access,
    /// by the declared mutability.
    pub fn system_query_arg_type(&self, index: usize, arg: usize, sub: usize) -> (r: Option<
        ArgType,
    >)
        ensures
            r is Some <==> (index < self.systems@.len() && arg
                < self.systems@[index as int].inputs@.len()
                && (self.systems@[index as int].inputs@[arg as int] matches ArgDescriptor::Query {
                inputs
            } && sub < inputs@.len())),
            r matches Some(t) ==> (self.systems@[index as int].inputs@[arg as int] matches
            ArgDescriptor::Query { inputs } && t == inputs@[sub as int].arg_type()),
    {
        if index < self.systems.len() && arg < self.systems[index].inputs.len() {
            match &self.systems[index].inputs[arg] {
                ArgDescriptor::Query { inputs } => {
                    if sub < inputs.len() {
                        if inputs[sub].mutable {
                            Some(ArgType::DataAccessMut)
                        } else {
                            Some(ArgType::DataAccessRef)
                        }
                    } else {
                        None
                    }
                },
                ArgDescriptor::DataAccessDirect(_) => None,
            }
        } else {
            None
        }
    }

    /// Type identity of one query sub-argument.
    pub fn system_query_arg_component(&self, index: usize, arg: usize, sub: usize) -> (r: Option<
        Vec<u8>,
    >)
        ensures
            r is Some <==> (index < self.systems@.len() && arg
                < self.systems@[index as int].inputs@.len()
                && (self.systems@[index as int].inputs@[arg as int] matches ArgDescriptor::Query {
                inputs
            } && sub < inputs@.len())),
            r matches Some(name) ==> (self.systems@[index as int].inputs@[arg as int] matches
            ArgDescriptor::Query { inputs } && name@ == inputs@[sub as int].component@),
    {
        if index < self.systems.len() && arg < self.systems[index].inputs.len() {
            match &self.systems[index].inputs[arg] {
                ArgDescriptor::Query { inputs } => {
                    if sub < inputs.len() {
                        Some(clone_name(&inputs[sub].component))
                    } else {
                        None
                    }
                },
                ArgDescriptor::DataAccessDirect(_) => None,
            }
        } else {
            None
        }
    }
}

/// The layout invariant a multi-component query relies on: consecutive
/// elements of the tuple shape sit exactly one pointer width apart, so the
/// untyped argument array may be read as homogeneous pointer-sized cells.
pub open spec fn layout_ok(offsets: Seq<usize>, ptr_width: usize) -> bool {
    forall|i: int|
        0 <= i < offsets.len() - 1 ==> (#[trigger] offsets[i + 1]) as int == offsets[i] as int
            + ptr_width as int
}

/// The layout self-check for one query tuple shape: `offsets` are the byte
/// offsets of the tuple's elements in declaration order, measured on a
/// zero-valued instance of the shape. A violation makes the boundary abort,
/// treated as a build/platform incompatibility.
pub fn layout_check(offsets: &Vec<usize>, ptr_width: usize) -> (r: bool)
    ensures
        r == layout_ok(offsets@, ptr_width),
{
    if offsets.len() == 0 {
        return true;
    }
    let mut i: usize = 0;
    while i < offsets.len() - 1
        invariant
            offsets@.len() > 0,
            i <= offsets@.len() - 1,
            forall|k: int|
                0 <= k < i ==> (#[trigger] offsets@[k + 1]) as int == offsets@[k] as int
                    + ptr_width as int,
        decreases offsets@.len() - i,
    {
        let here = offsets[i];
        let next = offsets[i + 1];
        if !(next >= here && next - here == ptr_width) {
            return false;
        }
        i += 1;
    }
    true
}

} // verus!
