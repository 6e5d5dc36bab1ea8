//! System dispatch across the untyped boundary, and the fault boundary.
//!
//! The host calls a system through its trampoline, passing a
//! length-prefixed array of (kind, pointer) cells — one pointer-sized cell
//! per declared argument. Reconstruction turns each cell back into a typed
//! argument by the system's descriptor: a query argument becomes a query
//! handle over that cell's pointer, a direct argument becomes shared or
//! exclusive access matching the declared mutability.
//!
//! Every host-invoked routine runs inside a fault-catching scope: an
//! abnormal termination is reported as a nonzero status, never allowed to
//! unwind across the boundary. Verified code cannot unwind, so a routine's
//! abnormal end is carried as a `Faulted` outcome value; the unverified shim
//! maps a caught unwind to the same outcome. Containment is not recovery —
//! the call still failed from the module's own perspective.

use vstd::prelude::*;
use crate::descriptor::ArgDescriptor;
use crate::descriptor::ArgType;
use crate::descriptor::SystemDescriptor;
use crate::names::clone_name;

verus! {

/// One cell of the argument array: the host's kind tag and the untyped
/// pointer, carried as an opaque numeric value.
#[derive(Clone, Copy)]
pub struct BoundaryCell {
    pub tag: ArgType,
    pub addr: usize,
}

/// A typed argument reconstructed from one cell.
#[derive(Debug)]
pub enum TypedArg {
    /// Exclusive access to the named component behind the cell's pointer.
    Exclusive { component: Vec<u8>, addr: usize },
    /// Shared access to the named component behind the cell's pointer.
    Shared { component: Vec<u8>, addr: usize },
    /// A query handle over the cell's pointer.
    QueryHandle { addr: usize },
}

/// The argument array has one cell per declared argument and every cell's
/// kind tag agrees with the descriptor.
pub open spec fn cells_match(sys: SystemDescriptor, cells: Seq<BoundaryCell>) -> bool {
    &&& cells.len() == sys.inputs@.len()
    &&& forall|i: int|
        0 <= i < cells.len() ==> (#[trigger] cells[i]).tag == sys.inputs@[i].arg_type()
}

/// The typed argument reconstructed from `cell` under `desc`.
pub open spec fn typed_arg_matches(arg: TypedArg, desc: ArgDescriptor, cell: BoundaryCell) -> bool {
    match desc {
        ArgDescriptor::DataAccessDirect(direct) => {
            if direct.mutable {
                arg matches TypedArg::Exclusive { component, addr } && component@
                    == direct.component@ && addr == cell.addr
            } else {
                arg matches TypedArg::Shared { component, addr } && component@
                    == direct.component@ && addr == cell.addr
            }
        },
        ArgDescriptor::Query { .. } => {
            arg matches TypedArg::QueryHandle { addr } && addr == cell.addr
        },
    }
}

/// The dispatch fault a trampoline reports without running the system body.
#[derive(Clone, Copy, PartialEq, Eq, Structural, Debug)]
pub enum DispatchError {
    /// The argument array does not match the system's declared shape.
    ShapeMismatch,
}

/// Reconstructs the typed argument list for one system call, or rejects an
/// argument array whose length or kind tags contradict the descriptor.
pub fn prepare_args(sys: &SystemDescriptor, cells: &Vec<BoundaryCell>) -> (r: Result<
    Vec<TypedArg>,
    DispatchError,
>)
    ensures
        r is Ok <==> cells_match(*sys, cells@),
        r matches Ok(args) ==> {
            &&& args@.len() == sys.inputs@.len()
            &&& forall|i: int|
                0 <= i < args@.len() ==> typed_arg_matches(
                    #[trigger] args@[i],
                    sys.inputs@[i],
                    cells@[i],
                )
        },
{
    if cells.len() != sys.inputs.len() {
        return Err(DispatchError::ShapeMismatch);
    }
    let mut args: Vec<TypedArg> = Vec::new();
    let mut i: usize = 0;
    while i < cells.len()
        invariant
            cells@.len() == sys.inputs@.len(),
            i <= cells@.len(),
            args@.len() == i,
            forall|k: int|
                0 <= k < i ==> (#[trigger] cells@[k]).tag == sys.inputs@[k].arg_type(),
            forall|k: int|
                0 <= k < i ==> typed_arg_matches(#[trigger] args@[k], sys.inputs@[k], cells@[k]),
        decreases cells@.len() - i,
    {
        let cell = cells[i];
        match &sys.inputs[i] {
            ArgDescriptor::DataAccessDirect(direct) => {
                let tag_agrees = match cell.tag {
                    ArgType::DataAccessMut => direct.mutable,
                    ArgType::DataAccessRef => !direct.mutable,
                    ArgType::Query => false,
                };
                if !tag_agrees {
                    return Err(DispatchError::ShapeMismatch);
                }
                if direct.mutable {
                    args.push(
                        TypedArg::Exclusive {
                            component: clone_name(&direct.component),
                            addr: cell.addr,
                        },
                    );
                } else {
                    args.push(
                        TypedArg::Shared {
                            component: clone_name(&direct.component),
                            addr: cell.addr,
                        },
                    );
                }
            },
            ArgDescriptor::Query { .. } => {
                let tag_agrees = match cell.tag {
                    ArgType::Query => true,
                    _ => false,
                };
                if !tag_agrees {
                    return Err(DispatchError::ShapeMismatch);
                }
                args.push(TypedArg::QueryHandle { addr: cell.addr });
            },
        }
        i += 1;
    }
    Ok(args)
}

/// How a routine handed across the boundary ended: normally, or in a fault
/// caught at the innermost point.
#[derive(Clone, Copy, PartialEq, Eq, Structural, Debug)]
pub enum RunOutcome {
    Completed,
    Faulted,
}

/// Converts one routine outcome to the status crossing the boundary:
/// zero exactly on normal completion.
pub fn boundary_status(outcome: RunOutcome) -> (status: i32)
    ensures
        status == 0 <==> outcome is Completed,
        status == 0 || status == 1,
{
    match outcome {
        RunOutcome::Completed => 0,
        RunOutcome::Faulted => 1,
    }
}

/// Status of a whole iteration: zero exactly when every per-entity routine
/// completed normally.
pub fn iterate_status(outcomes: &Vec<RunOutcome>) -> (status: i32)
    ensures
        status == 0 <==> (forall|i: int|
            0 <= i < outcomes@.len() ==> (#[trigger] outcomes@[i]) is Completed),
        status == 0 || status == 1,
{
    let mut i: usize = 0;
    while i < outcomes.len()
        invariant
            i <= outcomes@.len(),
            forall|k: int| 0 <= k < i ==> (#[trigger] outcomes@[k]) is Completed,
        decreases outcomes@.len() - i,
    {
        match outcomes[i] {
            RunOutcome::Faulted => {
                return 1;
            },
            RunOutcome::Completed => {},
        }
        i += 1;
    }
    0
}

/// The status one trampoline call reports: zero exactly when the argument
/// array matched the declared shape and the system body, run on the
/// reconstructed arguments, completed normally.
pub fn trampoline_status(
    sys: &SystemDescriptor,
    cells: &Vec<BoundaryCell>,
    body: RunOutcome,
) -> (status: i32)
    ensures
        status == 0 <==> (cells_match(*sys, cells@) && body is Completed),
        status == 0 || status == 1,
{
    match prepare_args(sys, cells) {
        Ok(_) => boundary_status(body),
        Err(_) => 1,
    }
}

/// A system that declares no arguments accepts the empty argument array:
/// its reconstruction succeeds with no arguments, so a completed body
/// reports status zero through the trampoline.
pub proof fn lemma_zero_arg_system_accepts_empty(sys: SystemDescriptor, cells: Seq<BoundaryCell>)
    requires
        sys.inputs@.len() == 0,
        cells.len() == 0,
    ensures
        cells_match(sys, cells),
{
}

} // verus!
