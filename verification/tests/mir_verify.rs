//! Structural checks of lowered modules.

use glyph::ast::BinaryOp;
use glyph::atomic::AtomicScalar;
use glyph::mir::{
    BlockId, Local, LocalId, MirBlock, MirExternFunction, MirFunction, MirInst, MirModule, MirValue,
    Rvalue,
};
use glyph::mir_verify::{errors_to_diagnostics, format_errors, verify_module};
use glyph::table::NameMap;
use glyph::types::{EnumType, EnumVariant, Mutability, StructType, Type};

fn simple_function(blocks: Vec<MirBlock>, locals: Vec<Local>) -> MirFunction {
    MirFunction {
        name: "f".into(),
        ret_type: Some(Type::I32),
        params: Vec::new(),
        locals,
        blocks,
    }
}

fn int_local() -> Local {
    Local {
        name: None,
        ty: Some(Type::I32),
        mutable: false,
        skip_drop: false,
    }
}

fn module_with(func: MirFunction) -> MirModule {
    MirModule {
        struct_types: NameMap::new(),
        enum_types: NameMap::new(),
        functions: vec![func],
        extern_functions: Vec::new(),
    }
}

#[test]
fn well_formed_function_verifies_clean() {
    let func = simple_function(
        vec![MirBlock {
            insts: vec![MirInst::Return(Some(MirValue::Int(0)))],
        }],
        vec![],
    );
    let module = module_with(func);
    assert!(verify_module(&module).is_empty());
}

#[test]
fn rejects_goto_to_out_of_range_block() {
    let func = simple_function(
        vec![MirBlock {
            insts: vec![MirInst::Goto(BlockId(5))],
        }],
        vec![],
    );
    let errors = verify_module(&module_with(func));
    assert_eq!(errors.len(), 1);
    assert!(errors[0].message.contains("out-of-range block"));
}

#[test]
fn rejects_if_to_out_of_range_block() {
    let func = simple_function(
        vec![MirBlock {
            insts: vec![MirInst::If {
                cond: MirValue::Bool(true),
                then_bb: BlockId(1),
                else_bb: BlockId(2),
            }],
        }],
        vec![],
    );
    let errors = verify_module(&module_with(func));
    assert_eq!(errors.len(), 2, "both then_bb and else_bb are out of range");
    assert!(errors.iter().all(|e| e.message.contains("out-of-range block")));
}

#[test]
fn rejects_out_of_range_local_id() {
    let func = simple_function(
        vec![MirBlock {
            insts: vec![
                MirInst::Assign {
                    local: LocalId(0),
                    value: Rvalue::Move(LocalId(7)),
                },
                MirInst::Return(None),
            ],
        }],
        vec![int_local()],
    );
    let errors = verify_module(&module_with(func));
    assert_eq!(errors.len(), 1);
    assert!(errors[0].message.contains("out-of-range local"));
}

#[test]
fn rejects_missing_terminator() {
    let func = simple_function(
        vec![MirBlock {
            insts: vec![MirInst::Assign {
                local: LocalId(0),
                value: Rvalue::ConstInt(1),
            }],
        }],
        vec![int_local()],
    );
    let errors = verify_module(&module_with(func));
    assert_eq!(errors.len(), 1);
    assert!(errors[0].message.contains("does not end with a terminator"));
}

#[test]
fn rejects_empty_block() {
    let func = simple_function(vec![MirBlock { insts: vec![] }], vec![]);
    let errors = verify_module(&module_with(func));
    assert_eq!(errors.len(), 1);
    assert!(errors[0].message.contains("missing a terminator"));
}

#[test]
fn rejects_instruction_after_terminator() {
    let func = simple_function(
        vec![MirBlock {
            insts: vec![
                MirInst::Return(None),
                MirInst::Assign {
                    local: LocalId(0),
                    value: Rvalue::ConstInt(1),
                },
            ],
        }],
        vec![int_local()],
    );
    let errors = verify_module(&module_with(func));
    assert!(
        errors
            .iter()
            .any(|e| e.message.contains("follows a terminator")),
        "{:?}",
        errors
    );
}

#[test]
fn rejects_bare_type_param_in_local() {
    let mut local = int_local();
    local.ty = Some(Type::Param("T".into()));
    let func = simple_function(
        vec![MirBlock {
            insts: vec![MirInst::Return(None)],
        }],
        vec![local],
    );
    let errors = verify_module(&module_with(func));
    assert_eq!(errors.len(), 1);
    assert!(errors[0].message.contains("must be monomorphized before codegen"));
}

#[test]
fn rejects_type_param_nested_inside_ref() {
    let mut local = int_local();
    local.ty = Some(Type::Ref(
        Box::new(Type::Param("T".into())),
        Mutability::Immutable,
    ));
    let func = simple_function(
        vec![MirBlock {
            insts: vec![MirInst::Return(None)],
        }],
        vec![local],
    );
    let errors = verify_module(&module_with(func));
    assert_eq!(errors.len(), 1);
    assert!(errors[0].message.contains("must be monomorphized before codegen"));
}

#[test]
fn rejects_unrecognized_type_app() {
    let mut local = int_local();
    local.ty = Some(Type::App {
        base: "Vec".into(),
        args: vec![Type::I32],
    });
    let func = simple_function(
        vec![MirBlock {
            insts: vec![MirInst::Return(None)],
        }],
        vec![local],
    );
    let errors = verify_module(&module_with(func));
    assert_eq!(errors.len(), 1);
    assert!(errors[0].message.contains("must be monomorphized before codegen"));
}

#[test]
fn accepts_canonical_arc_type_app() {
    let mut local = int_local();
    local.ty = Some(Type::arc(Type::I32));
    let func = simple_function(
        vec![MirBlock {
            insts: vec![MirInst::Return(None)],
        }],
        vec![local],
    );
    assert!(verify_module(&module_with(func)).is_empty());
}

#[test]
fn accepts_canonical_mutex_and_guard_type_app() {
    let mut a = int_local();
    a.ty = Some(Type::mutex(Type::I32));
    let mut b = int_local();
    b.ty = Some(Type::mutex_guard(Type::I32));
    let func = simple_function(
        vec![MirBlock {
            insts: vec![MirInst::Return(None)],
        }],
        vec![a, b],
    );
    assert!(verify_module(&module_with(func)).is_empty());
}

#[test]
fn accepts_canonical_spsc_type_app() {
    let mut sender = int_local();
    sender.ty = Some(Type::spsc_sender(Type::I32));
    let mut receiver = int_local();
    receiver.ty = Some(Type::spsc_receiver(Type::I32));
    let func = simple_function(
        vec![MirBlock {
            insts: vec![MirInst::Return(None)],
        }],
        vec![sender, receiver],
    );
    assert!(verify_module(&module_with(func)).is_empty());
}

#[test]
fn rejects_logical_and_as_raw_binary() {
    let func = simple_function(
        vec![MirBlock {
            insts: vec![
                MirInst::Assign {
                    local: LocalId(0),
                    value: Rvalue::Binary {
                        op: BinaryOp::And,
                        lhs: MirValue::Bool(true),
                        rhs: MirValue::Bool(false),
                    },
                },
                MirInst::Return(None),
            ],
        }],
        vec![Local {
            name: None,
            ty: Some(Type::Bool),
            mutable: false,
            skip_drop: false,
        }],
    );
    let errors = verify_module(&module_with(func));
    assert_eq!(errors.len(), 1);
    assert!(errors[0].message.contains("logical operators"));
}

#[test]
fn rejects_logical_or_as_raw_binary() {
    let func = simple_function(
        vec![MirBlock {
            insts: vec![
                MirInst::Assign {
                    local: LocalId(0),
                    value: Rvalue::Binary {
                        op: BinaryOp::Or,
                        lhs: MirValue::Bool(true),
                        rhs: MirValue::Bool(false),
                    },
                },
                MirInst::Return(None),
            ],
        }],
        vec![Local {
            name: None,
            ty: Some(Type::Bool),
            mutable: false,
            skip_drop: false,
        }],
    );
    let errors = verify_module(&module_with(func));
    assert_eq!(errors.len(), 1);
    assert!(errors[0].message.contains("logical operators"));
}

#[test]
fn accepts_eager_comparison_binary() {
    let func = simple_function(
        vec![MirBlock {
            insts: vec![
                MirInst::Assign {
                    local: LocalId(0),
                    value: Rvalue::Binary {
                        op: BinaryOp::Lt,
                        lhs: MirValue::Int(1),
                        rhs: MirValue::Int(2),
                    },
                },
                MirInst::Return(None),
            ],
        }],
        vec![Local {
            name: None,
            ty: Some(Type::Bool),
            mutable: false,
            skip_drop: false,
        }],
    );
    assert!(verify_module(&module_with(func)).is_empty());
}

#[test]
fn rejects_out_of_range_enum_construct_variant() {
    let mut module = module_with(simple_function(
        vec![MirBlock {
            insts: vec![
                MirInst::Assign {
                    local: LocalId(0),
                    value: Rvalue::EnumConstruct {
                        enum_name: "Color".into(),
                        variant_index: 9,
                        payload: None,
                    },
                },
                MirInst::Return(None),
            ],
        }],
        vec![Local {
            name: None,
            ty: Some(Type::Enum("Color".into())),
            mutable: false,
            skip_drop: false,
        }],
    ));
    module.enum_types.insert(
        "Color".into(),
        EnumType {
            name: "Color".into(),
            variants: vec![
                EnumVariant {
                    name: "Red".into(),
                    payload: None,
                },
                EnumVariant {
                    name: "Blue".into(),
                    payload: None,
                },
            ],
        },
    );
    let errors = verify_module(&module);
    assert_eq!(errors.len(), 1);
    assert!(errors[0].message.contains("EnumConstruct"));
    assert!(errors[0].message.contains("out of range"));
}

#[test]
fn accepts_in_range_enum_construct_variant() {
    let mut module = module_with(simple_function(
        vec![MirBlock {
            insts: vec![
                MirInst::Assign {
                    local: LocalId(0),
                    value: Rvalue::EnumConstruct {
                        enum_name: "Color".into(),
                        variant_index: 1,
                        payload: None,
                    },
                },
                MirInst::Return(None),
            ],
        }],
        vec![Local {
            name: None,
            ty: Some(Type::Enum("Color".into())),
            mutable: false,
            skip_drop: false,
        }],
    ));
    module.enum_types.insert(
        "Color".into(),
        EnumType {
            name: "Color".into(),
            variants: vec![
                EnumVariant {
                    name: "Red".into(),
                    payload: None,
                },
                EnumVariant {
                    name: "Blue".into(),
                    payload: None,
                },
            ],
        },
    );
    assert!(verify_module(&module).is_empty());
}

#[test]
fn rejects_out_of_range_enum_payload_variant() {
    let base_local = Local {
        name: None,
        ty: Some(Type::Enum("Color".into())),
        mutable: false,
        skip_drop: false,
    };
    let dest_local = Local {
        name: None,
        ty: Some(Type::I32),
        mutable: false,
        skip_drop: false,
    };
    let mut module = module_with(simple_function(
        vec![MirBlock {
            insts: vec![
                MirInst::Assign {
                    local: LocalId(1),
                    value: Rvalue::EnumPayload {
                        base: LocalId(0),
                        variant_index: 4,
                        payload_type: Type::I32,
                    },
                },
                MirInst::Return(None),
            ],
        }],
        vec![base_local, dest_local],
    ));
    module.enum_types.insert(
        "Color".into(),
        EnumType {
            name: "Color".into(),
            variants: vec![EnumVariant {
                name: "Red".into(),
                payload: Some(Type::I32),
            }],
        },
    );
    let errors = verify_module(&module);
    assert_eq!(errors.len(), 1);
    assert!(errors[0].message.contains("EnumPayload"));
}

#[test]
fn use_after_drop_in_same_block_is_rejected() {
    let func = simple_function(
        vec![MirBlock {
            insts: vec![
                MirInst::Drop(LocalId(0)),
                MirInst::Assign {
                    local: LocalId(1),
                    value: Rvalue::Move(LocalId(0)),
                },
                MirInst::Return(None),
            ],
        }],
        vec![int_local(), int_local()],
    );
    let errors = verify_module(&module_with(func));
    assert_eq!(errors.len(), 1);
    assert!(errors[0].message.contains("used after being dropped"));
}

#[test]
fn rewriting_an_out_parameter_after_dropping_it_is_accepted() {
    let elem = Type::Own(Box::new(Type::I32));
    let func = simple_function(
        vec![MirBlock {
            insts: vec![
                MirInst::Drop(LocalId(2)),
                MirInst::Assign {
                    local: LocalId(3),
                    value: Rvalue::SpscTrySend {
                        sender: LocalId(0),
                        value: LocalId(1),
                        out_unsent: LocalId(2),
                        elem_type: elem.clone(),
                    },
                },
                MirInst::Return(None),
            ],
        }],
        vec![
            Local {
                name: None,
                ty: Some(Type::spsc_sender(elem.clone())),
                mutable: false,
                skip_drop: false,
            },
            Local {
                name: None,
                ty: Some(elem.clone()),
                mutable: false,
                skip_drop: false,
            },
            Local {
                name: None,
                ty: Some(elem),
                mutable: false,
                skip_drop: false,
            },
            Local {
                name: None,
                ty: Some(Type::I32),
                mutable: false,
                skip_drop: false,
            },
        ],
    );
    assert!(verify_module(&module_with(func)).is_empty());
}

#[test]
fn double_drop_of_the_same_local_in_one_block_is_accepted() {
    let func = simple_function(
        vec![MirBlock {
            insts: vec![
                MirInst::Drop(LocalId(0)),
                MirInst::Drop(LocalId(0)),
                MirInst::Return(None),
            ],
        }],
        vec![int_local()],
    );
    assert!(verify_module(&module_with(func)).is_empty());
}

#[test]
fn reassignment_after_drop_clears_the_drop_and_is_accepted() {
    let func = simple_function(
        vec![MirBlock {
            insts: vec![
                MirInst::Drop(LocalId(0)),
                MirInst::Assign {
                    local: LocalId(0),
                    value: Rvalue::ConstInt(42),
                },
                MirInst::Assign {
                    local: LocalId(1),
                    value: Rvalue::Move(LocalId(0)),
                },
                MirInst::Return(None),
            ],
        }],
        vec![int_local(), int_local()],
    );
    assert!(verify_module(&module_with(func)).is_empty());
}

#[test]
fn drop_of_scoped_thread_handle_kinds_is_not_treated_as_a_value_drop() {
    let func = simple_function(
        vec![MirBlock {
            insts: vec![
                MirInst::DrainThreadScope(LocalId(0)),
                MirInst::DrainThreadScope(LocalId(0)),
                MirInst::Return(None),
            ],
        }],
        vec![int_local()],
    );
    assert!(verify_module(&module_with(func)).is_empty());
}

#[test]
fn extern_function_with_param_type_param_is_rejected() {
    let module = MirModule {
        struct_types: NameMap::new(),
        enum_types: NameMap::new(),
        functions: Vec::new(),
        extern_functions: vec![MirExternFunction {
            name: "bad_extern".into(),
            ret_type: Some(Type::Void),
            params: vec![Type::Param("T".into())],
            abi: Some("C".into()),
            link_name: None,
        }],
    };
    let errors = verify_module(&module);
    assert_eq!(errors.len(), 1);
    assert!(errors[0].function.contains("bad_extern"));
}

#[test]
fn struct_field_type_param_is_rejected() {
    let mut module = MirModule::default();
    module.struct_types.insert(
        "Bad".into(),
        StructType {
            name: "Bad".into(),
            fields: vec![("x".into(), Type::Param("T".into()))],
        },
    );
    let errors = verify_module(&module);
    assert_eq!(errors.len(), 1);
    assert!(errors[0].message.contains("field `x`"));
}

#[test]
fn atomic_scalar_type_is_unaffected_by_type_checks() {
    let mut local = int_local();
    local.ty = Some(Type::Atomic(AtomicScalar::I32));
    let func = simple_function(
        vec![MirBlock {
            insts: vec![MirInst::Return(None)],
        }],
        vec![local],
    );
    assert!(verify_module(&module_with(func)).is_empty());
}

#[test]
fn params_out_of_range_is_rejected() {
    let func = MirFunction {
        name: "f".into(),
        ret_type: None,
        params: vec![LocalId(3)],
        locals: vec![int_local()],
        blocks: vec![MirBlock {
            insts: vec![MirInst::Return(None)],
        }],
    };
    let errors = verify_module(&module_with(func));
    assert_eq!(errors.len(), 1);
    assert!(errors[0].message.contains("out-of-range local"));
}

#[test]
fn problems_are_rendered_one_per_line_with_their_place() {
    let function = simple_function(
        vec![MirBlock { insts: vec![MirInst::Nop, MirInst::Goto(BlockId(7))] }, MirBlock::default()],
        vec![],
    );
    let module = MirModule { functions: vec![function], ..MirModule::default() };
    let errors = verify_module(&module);
    assert_eq!(errors.len(), 2, "{errors:?}");
    let text = format_errors(&errors);
    let lines: Vec<&str> = text.lines().collect();
    assert!(lines[0].starts_with("in `f` bb0[1]: "), "{text}");
    assert!(lines[1].starts_with("in `f` bb1: "), "{text}");
    let diagnostics = errors_to_diagnostics(&errors);
    assert_eq!(diagnostics[0].message, lines[0]);
    assert_eq!(diagnostics[0].span, None);
    assert_eq!(format_errors(&[]), "");
}

/// A function of one block that goes to a block that is not there.
fn stray_function(name: &str, target: u32) -> MirFunction {
    MirFunction {
        name: name.into(),
        ..simple_function(vec![MirBlock { insts: vec![MirInst::Goto(BlockId(target))] }], vec![])
    }
}

#[test]
fn one_more_function_adds_only_its_own_problems() {
    let alone = verify_module(&module_with(stray_function("g", 9)));
    let mut module = module_with(stray_function("f", 5));
    let before = verify_module(&module);
    module.functions.push(stray_function("g", 9));
    let after = verify_module(&module);
    assert_eq!(after.len(), before.len() + alone.len());
    assert_eq!(format_errors(&after[..before.len()]), format_errors(&before));
    assert_eq!(format_errors(&after[before.len()..]), format_errors(&alone));
}

#[test]
fn reports_can_be_rendered_in_parts() {
    let mut module = module_with(stray_function("f", 5));
    module.functions.push(stray_function("g", 9));
    module.functions.push(stray_function("h", 3));
    let errors = verify_module(&module);
    assert_eq!(errors.len(), 3);
    let whole = format_errors(&errors);
    assert_eq!(whole.lines().count(), 3);
    for cut in 1..3 {
        let (first, second) = errors.split_at(cut);
        assert_eq!(whole, format!("{}\n{}", format_errors(first), format_errors(second)));
    }
    let (none, all) = errors.split_at(0);
    assert_eq!(format_errors(none), "");
    assert_eq!(format_errors(all), whole);
}
