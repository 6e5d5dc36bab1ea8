use arete_binding::abi::layout_check;
use arete_binding::descriptor::ArgDescriptor;
use arete_binding::descriptor::ArgType;
use arete_binding::descriptor::ComponentType;
use arete_binding::descriptor::DirectAccess;
use arete_binding::descriptor::ModuleModel;
use arete_binding::descriptor::SystemDescriptor;
use arete_binding::descriptor::TypeDescriptor;

#[allow(dead_code)]
struct FloorTile {
    position: u64,
    height: u32,
}

#[allow(dead_code)]
struct Lighting {
    intensity: [u32; 3],
}

fn direct(name: &str, mutable: bool) -> ArgDescriptor {
    ArgDescriptor::DataAccessDirect(DirectAccess {
        component: name.as_bytes().to_vec(),
        mutable,
    })
}

fn test_model() -> ModuleModel {
    let lighting_default = vec![0u8; core::mem::size_of::<Lighting>()];
    ModuleModel {
        types: vec![
            TypeDescriptor {
                name: b"FloorTile".to_vec(),
                kind: ComponentType::Component,
                size: core::mem::size_of::<FloorTile>(),
                align: core::mem::align_of::<FloorTile>(),
                default_image: Vec::new(),
            },
            TypeDescriptor {
                name: b"Lighting".to_vec(),
                kind: ComponentType::Resource,
                size: core::mem::size_of::<Lighting>(),
                align: core::mem::align_of::<Lighting>(),
                default_image: lighting_default,
            },
        ],
        systems: vec![
            SystemDescriptor {
                name: b"set_up".to_vec(),
                is_once: true,
                inputs: Vec::new(),
            },
            SystemDescriptor {
                name: b"tile_update".to_vec(),
                is_once: false,
                inputs: vec![
                    ArgDescriptor::Query {
                        inputs: vec![
                            DirectAccess { component: b"FloorTile".to_vec(), mutable: false },
                            DirectAccess { component: b"Lighting".to_vec(), mutable: true },
                        ],
                    },
                    direct("Lighting", true),
                    direct("FloorTile", false),
                ],
            },
        ],
    }
}

#[test]
fn accessors_report_true_storage_requirements() {
    let model = test_model();
    assert!(model.check_wf());
    assert_eq!(
        model.component_size(&b"FloorTile".to_vec()),
        Some(core::mem::size_of::<FloorTile>())
    );
    assert_eq!(
        model.component_align(&b"FloorTile".to_vec()),
        Some(core::mem::align_of::<FloorTile>())
    );
    assert_eq!(model.component_type(&b"FloorTile".to_vec()), Some(ComponentType::Component));
    assert_eq!(model.component_size(&b"Lighting".to_vec()), Some(core::mem::size_of::<Lighting>()));
    assert_eq!(
        model.component_align(&b"Lighting".to_vec()),
        Some(core::mem::align_of::<Lighting>())
    );
    assert_eq!(model.component_type(&b"Lighting".to_vec()), Some(ComponentType::Resource));
}

#[test]
fn unknown_names_signal_the_abort_path() {
    let model = test_model();
    assert_eq!(model.component_size(&b"Unknown".to_vec()), None);
    assert_eq!(model.component_align(&b"Unknown".to_vec()), None);
    assert_eq!(model.component_type(&b"Unknown".to_vec()), None);
}

#[test]
fn enumeration_follows_declaration_order() {
    let model = test_model();
    assert_eq!(model.component_string_id(0), Some(b"FloorTile".to_vec()));
    assert_eq!(model.component_string_id(1), Some(b"Lighting".to_vec()));
    assert_eq!(model.component_string_id(2), None);
}

#[test]
fn resource_init_writes_default_or_declines() {
    let model = test_model();
    let mut dest = Vec::new();
    assert_eq!(model.resource_init(&b"Lighting".to_vec(), &mut dest), 0);
    assert_eq!(dest, vec![0u8; core::mem::size_of::<Lighting>()]);
    let mut untouched = vec![7u8];
    assert_eq!(model.resource_init(&b"FloorTile".to_vec(), &mut untouched), 1);
    assert_eq!(untouched, vec![7u8]);
    assert_eq!(model.resource_init(&b"Unknown".to_vec(), &mut untouched), 1);
    assert_eq!(untouched, vec![7u8]);
}

#[test]
fn ordering_class_distinguishes_once_from_per_frame() {
    let model = test_model();
    assert_eq!(model.systems_len(), 2);
    assert_eq!(model.system_is_once(0), Some(true));
    assert_eq!(model.system_is_once(1), Some(false));
    assert_eq!(model.system_is_once(2), None);
}

#[test]
fn argument_descriptors_follow_the_declaration() {
    let model = test_model();
    assert_eq!(model.system_args_len(0), Some(0));
    assert_eq!(model.system_args_len(1), Some(3));
    assert_eq!(model.system_arg_type(1, 0), Some(ArgType::Query));
    assert_eq!(model.system_arg_type(1, 1), Some(ArgType::DataAccessMut));
    assert_eq!(model.system_arg_type(1, 2), Some(ArgType::DataAccessRef));
    assert_eq!(model.system_arg_component(1, 1), Some(b"Lighting".to_vec()));
    assert_eq!(model.system_arg_component(1, 2), Some(b"FloorTile".to_vec()));
    assert_eq!(model.system_arg_component(1, 0), None);
    assert_eq!(model.system_arg_type(1, 3), None);
    assert_eq!(model.system_arg_type(9, 0), None);
}

#[test]
fn two_component_query_reports_its_template() {
    let model = test_model();
    let ptr = core::mem::size_of::<usize>();
    let offsets: Vec<usize> = vec![0, ptr];
    assert!(layout_check(&offsets, ptr));
    assert_eq!(model.system_query_args_len(1, 0), Some(2));
    assert_eq!(model.system_query_arg_type(1, 0, 0), Some(ArgType::DataAccessRef));
    assert_eq!(model.system_query_arg_component(1, 0, 0), Some(b"FloorTile".to_vec()));
    assert_eq!(model.system_query_arg_type(1, 0, 1), Some(ArgType::DataAccessMut));
    assert_eq!(model.system_query_arg_component(1, 0, 1), Some(b"Lighting".to_vec()));
    assert_eq!(model.system_query_arg_type(1, 0, 2), None);
    assert_eq!(model.system_query_args_len(1, 1), None);
}

#[test]
fn layout_check_rejects_gaps() {
    let ptr = core::mem::size_of::<usize>();
    assert!(layout_check(&vec![0, ptr, 2 * ptr], ptr));
    assert!(layout_check(&vec![16, 16 + ptr], ptr));
    assert!(!layout_check(&vec![0, ptr + 1], ptr));
    assert!(!layout_check(&vec![0, ptr, ptr], ptr));
    assert!(layout_check(&Vec::new(), ptr));
    assert!(layout_check(&vec![40], ptr));
}
