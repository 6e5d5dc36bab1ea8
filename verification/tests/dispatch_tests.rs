use arete_binding::callbacks::CallbackSlots;
use arete_binding::callbacks::CallbackType;
use arete_binding::descriptor::ArgDescriptor;
use arete_binding::descriptor::ArgType;
use arete_binding::descriptor::DirectAccess;
use arete_binding::descriptor::SystemDescriptor;
use arete_binding::dispatch::boundary_status;
use arete_binding::dispatch::iterate_status;
use arete_binding::dispatch::prepare_args;
use arete_binding::dispatch::trampoline_status;
use arete_binding::dispatch::BoundaryCell;
use arete_binding::dispatch::DispatchError;
use arete_binding::dispatch::RunOutcome;
use arete_binding::dispatch::TypedArg;

fn zero_arg_system() -> SystemDescriptor {
    SystemDescriptor { name: b"set_up".to_vec(), is_once: true, inputs: Vec::new() }
}

fn mixed_system() -> SystemDescriptor {
    SystemDescriptor {
        name: b"tile_update".to_vec(),
        is_once: false,
        inputs: vec![
            ArgDescriptor::Query {
                inputs: vec![DirectAccess { component: b"FloorTile".to_vec(), mutable: true }],
            },
            ArgDescriptor::DataAccessDirect(DirectAccess {
                component: b"Lighting".to_vec(),
                mutable: false,
            }),
        ],
    }
}

#[test]
fn zero_arg_system_accepts_empty_array() {
    let sys = zero_arg_system();
    assert_eq!(sys.inputs.len(), 0);
    let args = prepare_args(&sys, &Vec::new()).unwrap();
    assert_eq!(args.len(), 0);
    assert_eq!(trampoline_status(&sys, &Vec::new(), RunOutcome::Completed), 0);
}

#[test]
fn reconstruction_matches_the_descriptor() {
    let sys = mixed_system();
    let cells = vec![
        BoundaryCell { tag: ArgType::Query, addr: 0x1000 },
        BoundaryCell { tag: ArgType::DataAccessRef, addr: 0x2000 },
    ];
    let args = prepare_args(&sys, &cells).unwrap();
    assert_eq!(args.len(), 2);
    match &args[0] {
        TypedArg::QueryHandle { addr } => assert_eq!(*addr, 0x1000),
        _ => panic!("expected a query handle"),
    }
    match &args[1] {
        TypedArg::Shared { component, addr } => {
            assert_eq!(component, &b"Lighting".to_vec());
            assert_eq!(*addr, 0x2000);
        }
        _ => panic!("expected shared access"),
    }
}

#[test]
fn shape_mismatches_are_rejected() {
    let sys = mixed_system();
    let too_short = vec![BoundaryCell { tag: ArgType::Query, addr: 0x1000 }];
    assert_eq!(prepare_args(&sys, &too_short).unwrap_err(), DispatchError::ShapeMismatch);
    let wrong_tag = vec![
        BoundaryCell { tag: ArgType::Query, addr: 0x1000 },
        BoundaryCell { tag: ArgType::DataAccessMut, addr: 0x2000 },
    ];
    assert_eq!(prepare_args(&sys, &wrong_tag).unwrap_err(), DispatchError::ShapeMismatch);
    assert_eq!(trampoline_status(&sys, &wrong_tag, RunOutcome::Completed), 1);
}

#[test]
fn faults_become_nonzero_status() {
    assert_eq!(boundary_status(RunOutcome::Completed), 0);
    assert_eq!(boundary_status(RunOutcome::Faulted), 1);
    let sys = zero_arg_system();
    assert_eq!(trampoline_status(&sys, &Vec::new(), RunOutcome::Faulted), 1);
}

#[test]
fn iteration_status_is_zero_only_when_every_routine_completed() {
    assert_eq!(iterate_status(&Vec::new()), 0);
    assert_eq!(iterate_status(&vec![RunOutcome::Completed, RunOutcome::Completed]), 0);
    assert_eq!(
        iterate_status(&vec![RunOutcome::Completed, RunOutcome::Faulted, RunOutcome::Completed]),
        1
    );
}

#[test]
fn callback_slots_store_by_kind() {
    let mut slots = CallbackSlots::new();
    assert!(!slots.all_set());
    assert_eq!(slots.slot(CallbackType::QueryGetFn), None);
    slots.set_callback_fn(CallbackType::QueryGetFn, 0x10);
    slots.set_callback_fn(CallbackType::QueryGetMutFn, 0x20);
    slots.set_callback_fn(CallbackType::QueryGetFirstFn, 0x30);
    slots.set_callback_fn(CallbackType::QueryGetFirstMutFn, 0x40);
    slots.set_callback_fn(CallbackType::QueryForEachFn, 0x50);
    assert!(!slots.all_set());
    slots.set_callback_fn(CallbackType::QueryParForEachFn, 0x60);
    assert!(slots.all_set());
    assert_eq!(slots.slot(CallbackType::QueryGetFn), Some(0x10));
    assert_eq!(slots.slot(CallbackType::QueryParForEachFn), Some(0x60));
    slots.set_callback_fn(CallbackType::QueryGetFn, 0x11);
    assert_eq!(slots.slot(CallbackType::QueryGetFn), Some(0x11));
    assert_eq!(slots.slot(CallbackType::QueryGetMutFn), Some(0x20));
}
