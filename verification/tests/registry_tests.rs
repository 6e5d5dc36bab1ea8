use arete_binding::descriptor::ArgDescriptor;
use arete_binding::descriptor::ComponentType;
use arete_binding::descriptor::DirectAccess;
use arete_binding::descriptor::ModuleModel;
use arete_binding::descriptor::SystemDescriptor;
use arete_binding::descriptor::TypeDescriptor;
use arete_binding::registry::builtin_components;
use arete_binding::registry::IdRegistry;

fn component_type(name: &str) -> TypeDescriptor {
    TypeDescriptor {
        name: name.as_bytes().to_vec(),
        kind: ComponentType::Component,
        size: 8,
        align: 8,
        default_image: Vec::new(),
    }
}

fn test_model() -> ModuleModel {
    ModuleModel {
        types: vec![component_type("Velocity"), component_type("AiTank")],
        systems: vec![SystemDescriptor {
            name: b"set_up_lighting".to_vec(),
            is_once: true,
            inputs: vec![
                ArgDescriptor::DataAccessDirect(DirectAccess {
                    component: b"Engine".to_vec(),
                    mutable: false,
                }),
                ArgDescriptor::DataAccessDirect(DirectAccess {
                    component: b"GlobalLighting".to_vec(),
                    mutable: true,
                }),
                ArgDescriptor::Query {
                    inputs: vec![DirectAccess {
                        component: b"Hidden".to_vec(),
                        mutable: false,
                    }],
                },
            ],
        }],
    }
}

#[test]
fn builtin_list_names_the_host_types() {
    let builtins = builtin_components();
    let expected: Vec<Vec<u8>> = ["Camera", "Color", "DirectionalLight", "DynamicStaticMesh",
        "PointLight", "Transform"]
        .iter()
        .map(|s| s.as_bytes().to_vec())
        .collect();
    assert_eq!(builtins, expected);
}

#[test]
fn id_targets_are_the_sorted_deduplicated_union() {
    let model = test_model();
    let targets = model.id_targets();
    let expected: Vec<Vec<u8>> = ["AiTank", "Camera", "Color", "DirectionalLight",
        "DynamicStaticMesh", "Engine", "GlobalLighting", "PointLight", "Transform", "Velocity"]
        .iter()
        .map(|s| s.as_bytes().to_vec())
        .collect();
    assert_eq!(targets, expected);
}

#[test]
fn query_sub_arguments_are_not_id_targets() {
    let model = test_model();
    let targets = model.id_targets();
    assert!(!targets.contains(&b"Hidden".to_vec()));
}

#[test]
fn id_assignment_agrees_with_both_lookups() {
    let model = test_model();
    let mut registry = IdRegistry::new(&model);
    assert_eq!(registry.id_of(&b"Velocity".to_vec()), None);
    registry.set_component_id(&b"Velocity".to_vec(), 11);
    registry.set_component_id(&b"Engine".to_vec(), 3);
    assert_eq!(registry.id_of(&b"Velocity".to_vec()), Some(11));
    assert_eq!(registry.id_of(&b"Engine".to_vec()), Some(3));
    assert_eq!(registry.name_of(11), Some(b"Velocity".to_vec()));
    assert_eq!(registry.name_of(3), Some(b"Engine".to_vec()));
    assert_eq!(registry.name_of(99), None);
}

#[test]
fn unknown_names_are_silently_ignored() {
    let model = test_model();
    let mut registry = IdRegistry::new(&model);
    registry.set_component_id(&b"ForeignModuleType".to_vec(), 42);
    assert_eq!(registry.id_of(&b"ForeignModuleType".to_vec()), None);
    assert_eq!(registry.name_of(42), None);
    registry.set_component_id(&b"AiTank".to_vec(), 42);
    assert_eq!(registry.id_of(&b"AiTank".to_vec()), Some(42));
}

#[test]
fn reassignment_overwrites_the_slot() {
    let model = test_model();
    let mut registry = IdRegistry::new(&model);
    registry.set_component_id(&b"AiTank".to_vec(), 1);
    registry.set_component_id(&b"AiTank".to_vec(), 2);
    assert_eq!(registry.id_of(&b"AiTank".to_vec()), Some(2));
    assert_eq!(registry.name_of(1), None);
}
