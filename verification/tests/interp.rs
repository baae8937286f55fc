use dexvm::error::JvmError;
use dexvm::class::CodeItem;
use dexvm::dex::{ClassData, ClassDef, DexFile, EncodedMethod, MethodId, ProtoId};
use dexvm::insn::{Args, Binop, Insn, InvokeKind};
use dexvm::interp::Exec;
use dexvm::value::JValue;
use dexvm::vm::Vm;

fn code(registers: u16, ins: u16, outs: u16, insns: Vec<Insn>, units: Vec<u32>, words: u32) -> CodeItem {
    CodeItem {
        registers_size: registers,
        ins_size: ins,
        outs_size: outs,
        insns,
        units,
        words,
        switches: Vec::new(),
        arrays: Vec::new(),
        tries: Vec::new(),
    }
}

fn hello_class(methods: Vec<EncodedMethod>) -> ClassDef {
    ClassDef {
        class_idx: 0,
        access_flags: 0x1,
        superclass_idx: 1,
        interfaces: Vec::new(),
        class_data: Some(ClassData {
            static_fields: Vec::new(),
            instance_fields: Vec::new(),
            direct_methods: methods,
            virtual_methods: Vec::new(),
        }),
        static_values: Vec::new(),
        generic_signature: None,
    }
}

// class LHello; : Ljava/lang/Object;
//   static int f(int a, int b) { return a + b; }
//   static int g() { return f(1, 2); }
fn hello_dex() -> DexFile {
    let strings = ["LHello;", "Ljava/lang/Object;", "f", "g", "I", "II"];
    let f = code(
        2,
        2,
        0,
        vec![Insn::Binop(Binop::Add, 0, 0, 1), Insn::Return(0)],
        vec![0, 2],
        3,
    );
    let g = code(
        2,
        0,
        2,
        vec![
            Insn::Const(0, 1),
            Insn::Const(1, 2),
            Insn::Invoke(InvokeKind::Static, 0, Args::List { count: 2, regs: [0, 1, 0, 0, 0] }),
            Insn::MoveResult(0),
            Insn::Return(0),
        ],
        vec![0, 2, 4, 7, 8],
        9,
    );
    DexFile {
        strings: strings.iter().map(|s| s.to_string()).collect(),
        types: vec![0, 1, 4],
        protos: vec![
            ProtoId { return_type: 2, params: vec![2, 2] },
            ProtoId { return_type: 2, params: Vec::new() },
        ],
        fields: Vec::new(),
        methods: vec![
            MethodId { class: 0, proto: 0, name: 2 },
            MethodId { class: 0, proto: 1, name: 3 },
        ],
        classes: vec![hello_class(vec![
            EncodedMethod { method_idx: 0, access_flags: 0x8, code: Some(f) },
            EncodedMethod { method_idx: 1, access_flags: 0x8, code: Some(g) },
        ])],
    }
}

// class LHello; whose only method `static native int g()` has no code.
fn native_dex() -> DexFile {
    let strings = ["LHello;", "Ljava/lang/Object;", "g", "I"];
    DexFile {
        strings: strings.iter().map(|s| s.to_string()).collect(),
        types: vec![0, 1, 3],
        protos: vec![ProtoId { return_type: 2, params: Vec::new() }],
        fields: Vec::new(),
        methods: vec![MethodId { class: 0, proto: 0, name: 2 }],
        classes: vec![hello_class(vec![EncodedMethod { method_idx: 0, access_flags: 0x108, code: None }])],
    }
}

fn slot_named(vm: &Vm, cid: u32, name: &str) -> u32 {
    vm.classes[cid as usize]
        .methods
        .iter()
        .position(|m| vm.str_of(m.name) == name)
        .expect("method") as u32
}

#[test]
fn runs_hello_dex() {
    let mut vm = Vm::new(vec![hello_dex()]).expect("vm");
    let cid = vm.ensure_class_by_desc("LHello;").expect("load LHello;");
    let f_slot = slot_named(&vm, cid, "f");
    let r = vm.run(cid, f_slot, vec![JValue::Int(2), JValue::Int(3)]).expect("run f");
    assert!(matches!(r, Exec::Done(JValue::Int(5))));
    let g_slot = slot_named(&vm, cid, "g");
    let r = vm.run(cid, g_slot, vec![]).expect("run g");
    assert!(matches!(r, Exec::Done(JValue::Int(3))));
    assert!(vm.frames.is_empty());
}

#[test]
fn native_method_reports_missing_jni_bridge() {
    let mut vm = Vm::new(vec![native_dex()]).expect("vm");
    let cid = vm.ensure_class_by_desc("LHello;").expect("load LHello;");
    let g_slot = slot_named(&vm, cid, "g");
    assert!(vm.classes[cid as usize].methods[g_slot as usize].native_decl);
    let err = match vm.run(cid, g_slot, vec![]) {
        Err(e) => e,
        Ok(_) => panic!("a native method without a bridge ran"),
    };
    assert!(err.message().contains("has no JNI bridge"), "unexpected error: {}", err.message());
    assert!(err.message().contains("native method g ()I has no JNI bridge"));
}

#[test]
fn proto_signature_text_parses_back() {
    let strings = ["I", "Ljava/lang/String;", "[J", "V"];
    let dex = DexFile {
        strings: strings.iter().map(|s| s.to_string()).collect(),
        types: vec![0, 1, 2, 3],
        protos: vec![ProtoId { return_type: 3, params: vec![0, 1, 2] }],
        fields: Vec::new(),
        methods: Vec::new(),
        classes: Vec::new(),
    };
    let vm = Vm::new(vec![dex]).expect("vm");
    let sig = vm.proto_sig(0, 0).expect("proto");
    assert_eq!(sig, "(ILjava/lang/String;[J)V");
    let (args, ret) = dexvm::sig::parse_sig(&sig);
    assert_eq!(args, vec!["I", "Ljava/lang/String;", "[J"]);
    assert_eq!(ret, "V");
    assert!(vm.proto_sig(0, 1).is_none());
}

#[test]
fn static_field_reads_back_what_was_written() {
    let strings = ["LCounter;", "Ljava/lang/Object;", "count", "I"];
    let dex = DexFile {
        strings: strings.iter().map(|s| s.to_string()).collect(),
        types: vec![0, 1, 3],
        protos: Vec::new(),
        fields: vec![dexvm::dex::FieldId { class: 0, ty: 2, name: 2 }],
        methods: Vec::new(),
        classes: vec![ClassDef {
            class_idx: 0,
            access_flags: 0x1,
            superclass_idx: 1,
            interfaces: Vec::new(),
            class_data: Some(ClassData {
                static_fields: vec![dexvm::dex::EncodedField { field_idx: 0, access_flags: 0x8 }],
                instance_fields: Vec::new(),
                direct_methods: Vec::new(),
                virtual_methods: Vec::new(),
            }),
            static_values: Vec::new(),
            generic_signature: None,
        }],
    };
    let mut vm = Vm::new(vec![dex]).expect("vm");
    vm.ensure_class_by_desc("LCounter;").expect("load");
    let fr = dexvm::vm::FieldRef {
        name: vm.intern_checked("count").unwrap(),
        ty: vm.intern_checked("I").unwrap(),
        class_desc: vm.intern_checked("LCounter;").unwrap(),
    };
    assert!(matches!(vm.static_field_get(fr), Ok(JValue::Null)));
    vm.static_field_put(fr, JValue::Int(7)).expect("put");
    assert!(matches!(vm.static_field_get(fr), Ok(JValue::Int(7))));
}

#[test]
fn unknown_class_is_not_found() {
    let mut vm = Vm::new(vec![hello_dex()]).expect("vm");
    let err = vm.ensure_class_by_desc("Lcom/example/Missing;").unwrap_err();
    assert_eq!(err, JvmError::Resolution("class not found: Lcom/example/Missing;".into()));
    assert!(vm.ensure_class_by_desc("LHello;").is_ok());
}

#[test]
fn bad_indices_are_named_in_errors() {
    let mut vm = Vm::new(vec![hello_dex()]).expect("vm");
    assert_eq!(vm.field_ref(0, 5).unwrap_err(), JvmError::Resolution("bad field idx 5".into()));
    assert_eq!(vm.method_ref(0, 9).unwrap_err(), JvmError::Resolution("bad method idx 9".into()));
    assert_eq!(vm.dex_string(0, 42).unwrap_err(), JvmError::Resolution("bad string idx 42".into()));
}

#[test]
fn static_call_into_unknown_class_is_not_found() {
    let mut vm = Vm::new(vec![hello_dex()]).expect("vm");
    match vm.invoke_static("Lcom/example/Missing;", "f", "()V", vec![]) {
        Err(e) => assert_eq!(e, JvmError::Resolution("class not found: Lcom/example/Missing;".into())),
        Ok(_) => panic!("a call into a missing class ran"),
    }
    match vm.invoke_static("LHello;", "f", "(II)I", vec![JValue::Int(4), JValue::Int(5)]) {
        Ok(Exec::Done(JValue::Int(9))) => {},
        _ => panic!("LHello;.f(4, 5) did not return 9"),
    }
    match vm.invoke_virtual(JValue::Null, "toString", "()Ljava/lang/String;") {
        Err(e) => assert_eq!(e, JvmError::Fatal("invoke_virtual on null".into())),
        Ok(_) => panic!("a call on null ran"),
    }
}

#[test]
fn type_lookup_names_the_class_and_caches_it() {
    let mut dex = hello_dex();
    dex.strings.push("Lcom/example/Gone;".to_string());
    dex.types.push(6);
    let gone = (dex.types.len() - 1) as u32;
    let mut vm = Vm::new(vec![dex]).expect("vm");
    assert_eq!(
        vm.ensure_class_by_type(0, gone).unwrap_err(),
        JvmError::Resolution("class not found: Lcom/example/Gone;".into())
    );
    let c = vm.ensure_class_by_type(0, 0).expect("LHello;");
    let n = vm.classes.len();
    assert_eq!(vm.str_of(vm.classes[c as usize].descriptor), "LHello;");
    assert_eq!(vm.ensure_class_by_type(0, 0).unwrap(), c);
    assert_eq!(vm.classes.len(), n);
}

#[test]
fn dex_string_loads_once() {
    let mut vm = Vm::new(vec![hello_dex()]).expect("vm");
    let a = vm.dex_string(0, 2).expect("string f");
    let n = vm.arena.objects.len();
    let b = vm.dex_string(0, 2).expect("string f again");
    assert_eq!(a, b);
    assert_eq!(vm.arena.objects.len(), n);
    assert_eq!(vm.str_of_jvalue(a).as_deref(), Some("f"));
}
