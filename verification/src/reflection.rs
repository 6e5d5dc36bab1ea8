//! Analysis of marked declarations into the descriptor model.
//!
//! A registration table of declaration shapes stands in for the module's
//! source: each entry says what the declaration syntactically is — a function
//! with a system marker and parameter shapes, or a data shape with derive
//! markers. Classification turns each marked function parameter into an
//! argument descriptor, or fails the build: a malformed system signature is a
//! contract violation, not a runtime condition.

use vstd::prelude::*;
use vstd::string::StrSliceExecFns;
use vstd::string::StringSliceAdditionalSpecFns;
use crate::descriptor::ArgDescriptor;
use crate::descriptor::ComponentType;
use crate::descriptor::DirectAccess;
use crate::descriptor::ModuleModel;
use crate::descriptor::SystemDescriptor;
use crate::descriptor::TypeDescriptor;
use crate::names::clone_name;
use crate::names::name_eq;

verus! {

/// The reserved type name that marks a query parameter.
pub open spec fn spec_query_marker() -> Seq<u8> {
    "Query".spec_bytes()
}

pub fn query_marker() -> (r: Vec<u8>)
    ensures
        r@ == spec_query_marker(),
{
    "Query".as_bytes_vec()
}

/// Shape of a reference to a named type: `&T` or `&mut T`.
pub struct ReferenceShape {
    pub referent: Vec<u8>,
    pub mutable: bool,
}

/// Shape of one element of a tuple standing under a query's generics.
pub enum TupleElemShape {
    Reference(ReferenceShape),
    /// A tuple element that is not a reference to a named type.
    Unsupported,
}

/// Shape of one generic argument of a by-value parameter type.
pub enum GenericArgShape {
    Reference(ReferenceShape),
    Tuple(Vec<TupleElemShape>),
    /// A generic argument that is neither a reference nor a tuple.
    Unsupported,
}

/// Shape of one system parameter as declared in source.
pub enum ParamShape {
    /// A reference to a named type.
    Reference(ReferenceShape),
    /// A by-value parameter of a type generic over the listed arguments.
    Generic { args: Vec<GenericArgShape> },
    /// A receiver parameter.
    Receiver,
    /// Any other parameter form.
    Other,
}

/// Why analysis rejects a module, failing the build.
#[derive(Clone, Copy, PartialEq, Eq, Structural, Debug)]
pub enum BuildError {
    /// A system takes a receiver parameter.
    SelfInput,
    /// A query parameter is taken by reference instead of by value.
    QueryByReference,
    /// A by-value parameter is not generic over exactly one argument.
    InvalidQueryGenerics,
    /// A query's generic argument is neither a reference nor a tuple.
    UnsupportedQueryInput,
    /// A parameter, or a query tuple element, is not a reference.
    InputNotReference,
}

/// Marker carried by a function declaration.
#[derive(Clone, Copy, PartialEq, Eq, Structural, Debug)]
pub enum FnMarker {
    Unmarked,
    System,
    SystemOnce,
}

/// Marker carried by a data-shape declaration.
#[derive(Clone, Copy, PartialEq, Eq, Structural, Debug)]
pub enum DeriveMarker {
    Component,
    Resource,
    Other,
}

/// One source declaration, reduced to what analysis reads of it.
pub enum Decl {
    Fn { name: Vec<u8>, marker: FnMarker, params: Vec<ParamShape> },
    Struct {
        name: Vec<u8>,
        markers: Vec<DeriveMarker>,
        size: usize,
        align: usize,
        default_image: Vec<u8>,
    },
    /// A declaration analysis ignores.
    Other,
}

/// The descriptor produced for a direct sub-argument, next to its shape.
pub open spec fn direct_of_ref(direct: DirectAccess, shape: ReferenceShape) -> bool {
    direct.component@ == shape.referent@ && direct.mutable == shape.mutable
}

/// Every element of a query tuple is a reference.
pub open spec fn tuple_all_refs(elems: Seq<TupleElemShape>) -> bool {
    forall|i: int| 0 <= i < elems.len() ==> (#[trigger] elems[i]) is Reference
}

/// Whether classification accepts a parameter shape.
pub open spec fn classify_ok(p: ParamShape) -> bool {
    match p {
        ParamShape::Reference(shape) => shape.referent@ != spec_query_marker(),
        ParamShape::Generic { args } => {
            &&& args@.len() == 1
            &&& match args@[0] {
                GenericArgShape::Reference(_) => true,
                GenericArgShape::Tuple(elems) => tuple_all_refs(elems@),
                GenericArgShape::Unsupported => false,
            }
        },
        ParamShape::Receiver => false,
        ParamShape::Other => false,
    }
}

/// The build error a rejected parameter shape produces.
pub open spec fn classify_err(p: ParamShape) -> BuildError {
    match p {
        ParamShape::Reference(_) => BuildError::QueryByReference,
        ParamShape::Generic { args } => {
            if args@.len() != 1 {
                BuildError::InvalidQueryGenerics
            } else {
                match args@[0] {
                    GenericArgShape::Tuple(_) => BuildError::InputNotReference,
                    _ => BuildError::UnsupportedQueryInput,
                }
            }
        },
        ParamShape::Receiver => BuildError::SelfInput,
        ParamShape::Other => BuildError::InputNotReference,
    }
}

/// The descriptor produced for an accepted parameter shape.
pub open spec fn arg_matches_param(arg: ArgDescriptor, p: ParamShape) -> bool {
    match p {
        ParamShape::Reference(shape) => {
            arg matches ArgDescriptor::DataAccessDirect(direct) && direct_of_ref(direct, shape)
        },
        ParamShape::Generic { args } => {
            &&& args@.len() == 1
            &&& match args@[0] {
                GenericArgShape::Reference(shape) => {
                    &&& arg matches ArgDescriptor::Query { inputs }
                    &&& inputs@.len() == 1
                    &&& direct_of_ref(inputs@[0], shape)
                },
                GenericArgShape::Tuple(elems) => {
                    &&& arg matches ArgDescriptor::Query { inputs }
                    &&& inputs@.len() == elems@.len()
                    &&& forall|i: int|
                        0 <= i < elems@.len() ==> (elems@[i] matches TupleElemShape::Reference(
                            shape,
                        ) && direct_of_ref(#[trigger] inputs@[i], shape))
                },
                GenericArgShape::Unsupported => false,
            }
        },
        ParamShape::Receiver => false,
        ParamShape::Other => false,
    }
}

/// Classifies one parameter shape: a reference to a named type other than the
/// query marker is direct access with the reference's mutability; a by-value
/// type generic over a single reference is a one-element query; one generic
/// over a single tuple of references is a query with one sub-argument per
/// tuple element, in declared order; a bare reference to the query marker,
/// and every other shape, fails the build.
pub fn classify_param(p: &ParamShape) -> (r: Result<ArgDescriptor, BuildError>)
    ensures
        r is Ok <==> classify_ok(*p),
        r matches Ok(arg) ==> arg_matches_param(arg, *p),
        r matches Err(e) ==> e == classify_err(*p),
{
    match p {
        ParamShape::Reference(shape) => {
            let marker = query_marker();
            if name_eq(&shape.referent, &marker) {
                proof {
                    assert(!classify_ok(*p));
                }
                Err(BuildError::QueryByReference)
            } else {
                let direct = DirectAccess {
                    component: clone_name(&shape.referent),
                    mutable: shape.mutable,
                };
                proof {
                    assert(classify_ok(*p));
                    assert(direct_of_ref(direct, *shape));
                }
                Ok(ArgDescriptor::DataAccessDirect(direct))
            }
        },
        ParamShape::Generic { args } => {
            if args.len() != 1 {
                return Err(BuildError::InvalidQueryGenerics);
            }
            match &args[0] {
                GenericArgShape::Reference(shape) => {
                    let mut inputs: Vec<DirectAccess> = Vec::new();
                    inputs.push(
                        DirectAccess {
                            component: clone_name(&shape.referent),
                            mutable: shape.mutable,
                        },
                    );
                    proof {
                        assert(args@[0] == GenericArgShape::Reference(*shape));
                        assert(inputs@.len() == 1);
                        assert(direct_of_ref(inputs@[0], *shape));
                    }
                    Ok(ArgDescriptor::Query { inputs })
                },
                GenericArgShape::Tuple(elems) => {
                    let mut inputs: Vec<DirectAccess> = Vec::new();
                    let mut i: usize = 0;
                    while i < elems.len()
                        invariant
                            *p == (ParamShape::Generic { args: *args }),
                            args@.len() == 1,
                            args@[0] == GenericArgShape::Tuple(*elems),
                            i <= elems@.len(),
                            inputs@.len() == i,
                            forall|k: int| 0 <= k < i ==> (#[trigger] elems@[k]) is Reference,
                            forall|k: int|
                                0 <= k < i ==> (elems@[k] matches TupleElemShape::Reference(shape)
                                    && direct_of_ref(#[trigger] inputs@[k], shape)),
                        decreases elems@.len() - i,
                    {
                        match &elems[i] {
                            TupleElemShape::Reference(shape) => {
                                inputs.push(
                                    DirectAccess {
                                        component: clone_name(&shape.referent),
                                        mutable: shape.mutable,
                                    },
                                );
                                proof {
                                    assert(elems@[i as int] == TupleElemShape::Reference(*shape));
                                    assert(direct_of_ref(inputs@[i as int], *shape));
                                }
                            },
                            TupleElemShape::Unsupported => {
                                proof {
                                    assert(elems@[i as int] == TupleElemShape::Unsupported);
                                    assert(!tuple_all_refs(elems@));
                                    assert(args@[0] == GenericArgShape::Tuple(*elems));
                                    assert(!classify_ok(*p));
                                }
                                return Err(BuildError::InputNotReference);
                            },
                        }
                        i += 1;
                    }
                    proof {
                        assert(tuple_all_refs(elems@));
                        assert(classify_ok(*p));
                    }
                    Ok(ArgDescriptor::Query { inputs })
                },
                GenericArgShape::Unsupported => Err(BuildError::UnsupportedQueryInput),
            }
        },
        ParamShape::Receiver => Err(BuildError::SelfInput),
        ParamShape::Other => Err(BuildError::InputNotReference),
    }
}

/// Every parameter of an accepted system classifies successfully.
pub open spec fn params_ok(params: Seq<ParamShape>) -> bool {
    forall|i: int| 0 <= i < params.len() ==> classify_ok(#[trigger] params[i])
}

/// The descriptor produced for a marked function, next to its declaration.
pub open spec fn system_matches_fn(
    sys: SystemDescriptor,
    name: Seq<u8>,
    marker: FnMarker,
    params: Seq<ParamShape>,
) -> bool {
    &&& sys.name@ == name
    &&& sys.is_once == (marker is SystemOnce)
    &&& sys.inputs@.len() == params.len()
    &&& forall|i: int|
        0 <= i < params.len() ==> arg_matches_param(#[trigger] sys.inputs@[i], params[i])
}

/// Builds one system descriptor from a marked function's declaration,
/// classifying each parameter in order; the first rejected parameter fails
/// the build with its error.
pub fn parse_system(name: &Vec<u8>, marker: FnMarker, params: &Vec<ParamShape>) -> (r: Result<
    SystemDescriptor,
    BuildError,
>)
    ensures
        r is Ok <==> params_ok(params@),
        r matches Ok(sys) ==> system_matches_fn(sys, name@, marker, params@),
        r matches Err(e) ==> exists|i: int|
            {
                &&& 0 <= i < params@.len()
                &&& !classify_ok(#[trigger] params@[i])
                &&& forall|k: int| 0 <= k < i ==> classify_ok(#[trigger] params@[k])
                &&& e == classify_err(params@[i])
            },
{
    let mut inputs: Vec<ArgDescriptor> = Vec::new();
    let mut i: usize = 0;
    while i < params.len()
        invariant
            i <= params@.len(),
            inputs@.len() == i,
            forall|k: int| 0 <= k < i ==> classify_ok(#[trigger] params@[k]),
            forall|k: int|
                0 <= k < i ==> arg_matches_param(#[trigger] inputs@[k], params@[k]),
        decreases params@.len() - i,
    {
        match classify_param(&params[i]) {
            Ok(arg) => {
                inputs.push(arg);
            },
            Err(e) => {
                return Err(e);
            },
        }
        i += 1;
    }
    Ok(
        SystemDescriptor {
            name: clone_name(name),
            is_once: match marker {
                FnMarker::SystemOnce => true,
                _ => false,
            },
            inputs,
        },
    )
}

/// The kind a data shape's derive markers give it: a component marker wins,
/// then a resource marker, otherwise the shape is not registered.
pub open spec fn spec_struct_kind(markers: Seq<DeriveMarker>) -> Option<ComponentType> {
    if exists|i: int| 0 <= i < markers.len() && (#[trigger] markers[i]) is Component {
        Some(ComponentType::Component)
    } else if exists|i: int| 0 <= i < markers.len() && (#[trigger] markers[i]) is Resource {
        Some(ComponentType::Resource)
    } else {
        None
    }
}

pub fn struct_kind(markers: &Vec<DeriveMarker>) -> (r: Option<ComponentType>)
    ensures
        r == spec_struct_kind(markers@),
{
    let mut has_component = false;
    let mut has_resource = false;
    let mut i: usize = 0;
    while i < markers.len()
        invariant
            i <= markers@.len(),
            has_component == exists|k: int|
                0 <= k < i && (#[trigger] markers@[k]) is Component,
            has_resource == exists|k: int|
                0 <= k < i && (#[trigger] markers@[k]) is Resource,
        decreases markers@.len() - i,
    {
        match markers[i] {
            DeriveMarker::Component => {
                has_component = true;
            },
            DeriveMarker::Resource => {
                has_resource = true;
            },
            DeriveMarker::Other => {},
        }
        i += 1;
    }
    if has_component {
        Some(ComponentType::Component)
    } else if has_resource {
        Some(ComponentType::Resource)
    } else {
        None
    }
}

/// Whether a declaration contributes a system.
pub open spec fn is_system_decl(d: Decl) -> bool {
    d matches Decl::Fn { marker, .. } && !(marker is Unmarked)
}

/// Whether a declaration contributes a registered type.
pub open spec fn is_type_decl(d: Decl) -> bool {
    d matches Decl::Struct { markers, .. } && spec_struct_kind(markers@) is Some
}

/// The subsequence of declarations that contribute systems, in order.
pub open spec fn system_decls(decls: Seq<Decl>) -> Seq<Decl>
    decreases decls.len(),
{
    if decls.len() == 0 {
        Seq::empty()
    } else {
        let rest = system_decls(decls.drop_last());
        if is_system_decl(decls.last()) {
            rest.push(decls.last())
        } else {
            rest
        }
    }
}

/// The subsequence of declarations that contribute registered types, in order.
pub open spec fn type_decls(decls: Seq<Decl>) -> Seq<Decl>
    decreases decls.len(),
{
    if decls.len() == 0 {
        Seq::empty()
    } else {
        let rest = type_decls(decls.drop_last());
        if is_type_decl(decls.last()) {
            rest.push(decls.last())
        } else {
            rest
        }
    }
}

/// The descriptor produced for a system-contributing declaration.
pub open spec fn system_matches_decl(sys: SystemDescriptor, d: Decl) -> bool {
    d matches Decl::Fn { name, marker, params } && system_matches_fn(
        sys,
        name@,
        marker,
        params@,
    )
}

/// The descriptor produced for a type-contributing declaration.
pub open spec fn type_matches_decl(t: TypeDescriptor, d: Decl) -> bool {
    d matches Decl::Struct { name, markers, size, align, default_image } && {
        &&& t.name@ == name@
        &&& Some(t.kind) == spec_struct_kind(markers@)
        &&& t.size == size
        &&& t.align == align
        &&& t.default_image@ == default_image@
    }
}

/// Every system-contributing declaration classifies successfully.
pub open spec fn decls_ok(decls: Seq<Decl>) -> bool {
    forall|k: int|
        0 <= k < decls.len() ==> (is_system_decl(#[trigger] decls[k]) ==> (decls[k] matches
        Decl::Fn { params, .. } && params_ok(params@)))
}

/// A resource-marked declaration's default image fills its declared size,
/// so the model it yields is well formed.
pub open spec fn decls_wf(decls: Seq<Decl>) -> bool {
    forall|k: int|
        0 <= k < decls.len() ==> ((#[trigger] decls[k]) matches Decl::Struct {
            markers,
            size,
            default_image,
            ..
        } ==> (spec_struct_kind(markers@) == Some(ComponentType::Resource)
            ==> default_image@.len() == size))
}

pub fn check_decls_wf(decls: &Vec<Decl>) -> (r: bool)
    ensures
        r == decls_wf(decls@),
{
    let mut i: usize = 0;
    while i < decls.len()
        invariant
            i <= decls@.len(),
            forall|k: int|
                0 <= k < i ==> ((#[trigger] decls@[k]) matches Decl::Struct {
                    markers,
                    size,
                    default_image,
                    ..
                } ==> (spec_struct_kind(markers@) == Some(ComponentType::Resource)
                    ==> default_image@.len() == size)),
        decreases decls@.len() - i,
    {
        match &decls[i] {
            Decl::Struct { markers, size, default_image, .. } => {
                match struct_kind(markers) {
                    Some(ComponentType::Resource) => {
                        if default_image.len() != *size {
                            return false;
                        }
                    },
                    _ => {},
                }
            },
            _ => {},
        }
        i += 1;
    }
    true
}

/// Scans the declarations in order and builds the descriptor model: one
/// system descriptor per marked function, one type descriptor per marked data
/// shape, with no reordering. The first malformed system signature fails the
/// build with its classification error.
pub fn build_model(decls: &Vec<Decl>) -> (r: Result<ModuleModel, BuildError>)
    requires
        decls_wf(decls@),
    ensures
        r is Ok <==> decls_ok(decls@),
        r matches Ok(model) ==> {
            &&& model.wf()
            &&& model.systems@.len() == system_decls(decls@).len()
            &&& forall|k: int|
                0 <= k < model.systems@.len() ==> system_matches_decl(
                    #[trigger] model.systems@[k],
                    system_decls(decls@)[k],
                )
            &&& model.types@.len() == type_decls(decls@).len()
            &&& forall|k: int|
                0 <= k < model.types@.len() ==> type_matches_decl(
                    #[trigger] model.types@[k],
                    type_decls(decls@)[k],
                )
        },
        r matches Err(e) ==> exists|k: int|
            {
                &&& 0 <= k < decls@.len()
                &&& is_system_decl(#[trigger] decls@[k])
                &&& decls@[k] matches Decl::Fn { params, .. } && !params_ok(params@) && (
                exists|i: int|
                    {
                        &&& 0 <= i < params@.len()
                        &&& !classify_ok(#[trigger] params@[i])
                        &&& forall|j: int| 0 <= j < i ==> classify_ok(#[trigger] params@[j])
                        &&& e == classify_err(params@[i])
                    })
                &&& forall|k2: int|
                    0 <= k2 < k ==> (is_system_decl(#[trigger] decls@[k2]) ==> (decls@[k2] matches
                    Decl::Fn { params, .. } && params_ok(params@)))
            },
{
    let mut systems: Vec<SystemDescriptor> = Vec::new();
    let mut types: Vec<TypeDescriptor> = Vec::new();
    let mut i: usize = 0;
    while i < decls.len()
        invariant
            decls_wf(decls@),
            i <= decls@.len(),
            systems@.len() == system_decls(decls@.take(i as int)).len(),
            forall|k: int|
                0 <= k < systems@.len() ==> system_matches_decl(
                    #[trigger] systems@[k],
                    system_decls(decls@.take(i as int))[k],
                ),
            types@.len() == type_decls(decls@.take(i as int)).len(),
            forall|k: int|
                0 <= k < types@.len() ==> type_matches_decl(
                    #[trigger] types@[k],
                    type_decls(decls@.take(i as int))[k],
                ),
            forall|k: int| 0 <= k < types@.len() ==> (#[trigger] types@[k]).wf(),
            forall|k: int|
                0 <= k < i ==> (is_system_decl(#[trigger] decls@[k]) ==> (decls@[k] matches
                Decl::Fn { params, .. } && params_ok(params@))),
        decreases decls@.len() - i,
    {
        let ghost prefix = decls@.take(i as int);
        let ghost next_prefix = decls@.take(i + 1);
        proof {
            assert(next_prefix.drop_last() =~= prefix);
            assert(next_prefix.last() == decls@[i as int]);
        }
        match &decls[i] {
            Decl::Fn { name, marker, params } => {
                match marker {
                    FnMarker::Unmarked => {
                        proof {
                            assert(!is_system_decl(decls@[i as int]));
                            assert(system_decls(next_prefix) =~= system_decls(prefix));
                            assert(type_decls(next_prefix) =~= type_decls(prefix));
                        }
                    },
                    _ => {
                        match parse_system(name, *marker, params) {
                            Ok(sys) => {
                                proof {
                                    assert(is_system_decl(decls@[i as int]));
                                    assert(system_decls(next_prefix) =~= system_decls(
                                        prefix,
                                    ).push(decls@[i as int]));
                                    assert(type_decls(next_prefix) =~= type_decls(prefix));
                                }
                                systems.push(sys);
                            },
                            Err(e) => {
                                return Err(e);
                            },
                        }
                    },
                }
            },
            Decl::Struct { name, markers, size, align, default_image } => {
                match struct_kind(markers) {
                    Some(kind) => {
                        proof {
                            assert(is_type_decl(decls@[i as int]));
                            assert(type_decls(next_prefix) =~= type_decls(prefix).push(
                                decls@[i as int],
                            ));
                            assert(system_decls(next_prefix) =~= system_decls(prefix));
                        }
                        types.push(
                            TypeDescriptor {
                                name: clone_name(name),
                                kind,
                                size: *size,
                                align: *align,
                                default_image: clone_name(default_image),
                            },
                        );
                    },
                    _ => {
                        proof {
                            assert(!is_type_decl(decls@[i as int]));
                            assert(system_decls(next_prefix) =~= system_decls(prefix));
                            assert(type_decls(next_prefix) =~= type_decls(prefix));
                        }
                    },
                }
            },
            Decl::Other => {
                proof {
                    assert(system_decls(next_prefix) =~= system_decls(prefix));
                    assert(type_decls(next_prefix) =~= type_decls(prefix));
                }
            },
        }
        i += 1;
    }
    proof {
        assert(decls@.take(decls@.len() as int) =~= decls@);
    }
    Ok(ModuleModel { systems, types })
}

} // verus!
