use arete_binding::descriptor::ArgDescriptor;
use arete_binding::descriptor::ComponentType;
use arete_binding::reflection::build_model;
use arete_binding::reflection::check_decls_wf;
use arete_binding::reflection::classify_param;
use arete_binding::reflection::struct_kind;
use arete_binding::reflection::BuildError;
use arete_binding::reflection::Decl;
use arete_binding::reflection::DeriveMarker;
use arete_binding::reflection::FnMarker;
use arete_binding::reflection::GenericArgShape;
use arete_binding::reflection::ParamShape;
use arete_binding::reflection::ReferenceShape;
use arete_binding::reflection::TupleElemShape;

fn shared_ref(name: &str) -> ParamShape {
    ParamShape::Reference(ReferenceShape { referent: name.as_bytes().to_vec(), mutable: false })
}

fn exclusive_ref(name: &str) -> ParamShape {
    ParamShape::Reference(ReferenceShape { referent: name.as_bytes().to_vec(), mutable: true })
}

fn query_over_tuple(elems: &[(&str, bool)]) -> ParamShape {
    let tuple = elems
        .iter()
        .map(|(name, mutable)| {
            TupleElemShape::Reference(ReferenceShape {
                referent: name.as_bytes().to_vec(),
                mutable: *mutable,
            })
        })
        .collect();
    ParamShape::Generic { args: vec![GenericArgShape::Tuple(tuple)] }
}

#[test]
fn shared_reference_is_read_access() {
    match classify_param(&shared_ref("Transform")) {
        Ok(ArgDescriptor::DataAccessDirect(direct)) => {
            assert_eq!(direct.component, b"Transform".to_vec());
            assert!(!direct.mutable);
        }
        other => panic!("expected direct access, got {:?}", other.is_ok()),
    }
}

#[test]
fn exclusive_reference_is_write_access() {
    match classify_param(&exclusive_ref("GlobalLighting")) {
        Ok(ArgDescriptor::DataAccessDirect(direct)) => {
            assert_eq!(direct.component, b"GlobalLighting".to_vec());
            assert!(direct.mutable);
        }
        _ => panic!("expected direct access"),
    }
}

#[test]
fn reference_to_query_is_rejected() {
    assert_eq!(classify_param(&shared_ref("Query")).unwrap_err(), BuildError::QueryByReference);
}

#[test]
fn single_reference_generic_is_one_element_query() {
    let shape = ParamShape::Generic {
        args: vec![GenericArgShape::Reference(ReferenceShape {
            referent: b"Transform".to_vec(),
            mutable: true,
        })],
    };
    match classify_param(&shape) {
        Ok(ArgDescriptor::Query { inputs }) => {
            assert_eq!(inputs.len(), 1);
            assert_eq!(inputs[0].component, b"Transform".to_vec());
            assert!(inputs[0].mutable);
        }
        _ => panic!("expected query"),
    }
}

#[test]
fn tuple_generic_keeps_order_and_mutability() {
    let shape = query_over_tuple(&[("AiTank", false), ("Transform", true), ("Color", false)]);
    match classify_param(&shape) {
        Ok(ArgDescriptor::Query { inputs }) => {
            assert_eq!(inputs.len(), 3);
            assert_eq!(inputs[0].component, b"AiTank".to_vec());
            assert!(!inputs[0].mutable);
            assert_eq!(inputs[1].component, b"Transform".to_vec());
            assert!(inputs[1].mutable);
            assert_eq!(inputs[2].component, b"Color".to_vec());
            assert!(!inputs[2].mutable);
        }
        _ => panic!("expected query"),
    }
}

#[test]
fn malformed_shapes_fail_the_build() {
    assert_eq!(classify_param(&ParamShape::Receiver).unwrap_err(), BuildError::SelfInput);
    assert_eq!(classify_param(&ParamShape::Other).unwrap_err(), BuildError::InputNotReference);
    let two_generics = ParamShape::Generic {
        args: vec![
            GenericArgShape::Reference(ReferenceShape {
                referent: b"A".to_vec(),
                mutable: false,
            }),
            GenericArgShape::Reference(ReferenceShape {
                referent: b"B".to_vec(),
                mutable: false,
            }),
        ],
    };
    assert_eq!(classify_param(&two_generics).unwrap_err(), BuildError::InvalidQueryGenerics);
    let bad_elem = ParamShape::Generic {
        args: vec![GenericArgShape::Tuple(vec![TupleElemShape::Unsupported])],
    };
    assert_eq!(classify_param(&bad_elem).unwrap_err(), BuildError::InputNotReference);
    let bad_generic = ParamShape::Generic { args: vec![GenericArgShape::Unsupported] };
    assert_eq!(classify_param(&bad_generic).unwrap_err(), BuildError::UnsupportedQueryInput);
}

#[test]
fn component_marker_wins_over_resource_marker() {
    assert_eq!(
        struct_kind(&vec![DeriveMarker::Other, DeriveMarker::Resource]),
        Some(ComponentType::Resource)
    );
    assert_eq!(
        struct_kind(&vec![DeriveMarker::Resource, DeriveMarker::Component]),
        Some(ComponentType::Component)
    );
    assert_eq!(struct_kind(&vec![DeriveMarker::Other]), None);
}

fn tank_module_decls() -> Vec<Decl> {
    vec![
        Decl::Struct {
            name: b"Velocity".to_vec(),
            markers: vec![DeriveMarker::Component],
            size: 16,
            align: 16,
            default_image: Vec::new(),
        },
        Decl::Struct {
            name: b"Noise".to_vec(),
            markers: vec![DeriveMarker::Resource],
            size: 4,
            align: 4,
            default_image: vec![0, 0, 0, 0],
        },
        Decl::Fn {
            name: b"spawn_tanks".to_vec(),
            marker: FnMarker::SystemOnce,
            params: vec![shared_ref("Engine")],
        },
        Decl::Fn {
            name: b"tank_color".to_vec(),
            marker: FnMarker::Unmarked,
            params: vec![ParamShape::Other],
        },
        Decl::Fn {
            name: b"ai_tank_update".to_vec(),
            marker: FnMarker::System,
            params: vec![
                query_over_tuple(&[("AiTank", false), ("Transform", true), ("Color", false)]),
                shared_ref("Noise"),
                shared_ref("FrameConstants"),
                shared_ref("Engine"),
            ],
        },
        Decl::Other,
    ]
}

#[test]
fn build_model_keeps_declaration_order() {
    let decls = tank_module_decls();
    assert!(check_decls_wf(&decls));
    let model = build_model(&decls).unwrap();
    assert_eq!(model.systems.len(), 2);
    assert_eq!(model.systems[0].name, b"spawn_tanks".to_vec());
    assert!(model.systems[0].is_once);
    assert_eq!(model.systems[0].inputs.len(), 1);
    assert_eq!(model.systems[1].name, b"ai_tank_update".to_vec());
    assert!(!model.systems[1].is_once);
    assert_eq!(model.systems[1].inputs.len(), 4);
    assert_eq!(model.types.len(), 2);
    assert_eq!(model.types[0].name, b"Velocity".to_vec());
    assert_eq!(model.types[0].kind, ComponentType::Component);
    assert_eq!(model.types[1].name, b"Noise".to_vec());
    assert_eq!(model.types[1].kind, ComponentType::Resource);
}

#[test]
fn build_model_reports_first_malformed_system() {
    let decls = vec![
        Decl::Fn {
            name: b"fine".to_vec(),
            marker: FnMarker::System,
            params: vec![shared_ref("Transform")],
        },
        Decl::Fn {
            name: b"broken".to_vec(),
            marker: FnMarker::System,
            params: vec![shared_ref("Transform"), shared_ref("Query")],
        },
    ];
    assert!(check_decls_wf(&decls));
    assert_eq!(build_model(&decls).unwrap_err(), BuildError::QueryByReference);
}
