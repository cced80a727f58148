use gfaas_macro::attrs::{
    apply_attr, datadir_under, default_datadir, net_from_lowered, net_from_text, parse_port, AttrValue, Config, GwasmAttr,
    GwasmAttrs, GwasmParams, Net, DEFAULT_RPC_PORT,
};
use gfaas_macro::error::{MissingSetting, SyntaxIssue, TransformError};
use gfaas_macro::expand::{build_expansion, remote_fn_impl, BuildEnv, DispatchPlan, Strategy};
use gfaas_macro::signature::{
    validate_arg_type, validate_extract_args, FnArgDesc, GwasmFn, Param, TypeDesc,
};

fn s(x: &str) -> String {
    x.to_string()
}

fn u8_ty() -> TypeDesc {
    TypeDesc::Path(Some(s("u8")))
}

fn slice_ref() -> TypeDesc {
    TypeDesc::Reference(Box::new(TypeDesc::Slice(Box::new(u8_ty()))))
}

fn typed(pat: &str, ty: TypeDesc) -> FnArgDesc {
    FnArgDesc::Typed { attrs: 0, pat: s(pat), ty }
}

fn attr(k: &str, v: AttrValue) -> GwasmAttr {
    GwasmAttr { ident: s(k), value: v }
}

fn str_attr(k: &str, v: &str) -> GwasmAttr {
    attr(k, AttrValue::Str(s(v)))
}

fn resolve(list: Vec<GwasmAttr>) -> Result<GwasmParams, TransformError> {
    GwasmParams::from_attrs(&GwasmAttrs(list))
}

#[test]
fn byte_shaped_types_are_accepted() {
    assert!(validate_arg_type(&u8_ty()));
    assert!(validate_arg_type(&slice_ref()));
    assert!(validate_arg_type(&TypeDesc::Array(Box::new(u8_ty()))));
    let deep = TypeDesc::Reference(Box::new(TypeDesc::Array(Box::new(TypeDesc::Slice(
        Box::new(TypeDesc::Reference(Box::new(u8_ty()))),
    )))));
    assert!(validate_arg_type(&deep));
}

#[test]
fn other_types_are_rejected() {
    assert!(!validate_arg_type(&TypeDesc::Path(Some(s("u32")))));
    assert!(!validate_arg_type(&TypeDesc::Path(Some(s("f64")))));
    assert!(!validate_arg_type(&TypeDesc::Path(Some(s("MyStruct")))));
    assert!(!validate_arg_type(&TypeDesc::Path(None)));
    assert!(!validate_arg_type(&TypeDesc::Other));
    assert!(!validate_arg_type(&TypeDesc::Reference(Box::new(TypeDesc::Slice(Box::new(
        TypeDesc::Path(Some(s("i32")))
    ))))));
}

#[test]
fn extracted_parameters_keep_their_order() {
    let r = validate_extract_args(vec![typed("a", slice_ref()), typed("b", u8_ty())]).unwrap();
    assert_eq!(
        r,
        vec![Param { pat: s("a"), ty: slice_ref() }, Param { pat: s("b"), ty: u8_ty() }]
    );
}

#[test]
fn empty_parameter_list_is_refused_at_validation() {
    assert_eq!(validate_extract_args(vec![]), Err(TransformError::NoParameters));
}

#[test]
fn zero_parameters_are_reported_before_environment_errors() {
    let attrs = GwasmAttrs(vec![]);
    let mut f = three_param_fn();
    f.args.clear();
    assert_eq!(remote_fn_impl(&attrs, f, None, false), Err(TransformError::NoParameters));
}

#[test]
fn datadir_is_joined_with_default() {
    let expected = std::path::Path::new("/base").join("default");
    assert_eq!(datadir_under(Some(s("/base"))), Some(expected.to_string_lossy().into_owned()));
    assert_ne!(datadir_under(Some(s("/base"))), Some(s("/base")));
    assert_eq!(datadir_under(None), None);
}

#[test]
fn default_datadir_ends_in_default() {
    if let Some(d) = default_datadir() {
        assert!(std::path::Path::new(&d).ends_with("default"));
    }
}

#[test]
fn receiver_is_a_syntax_error() {
    let r = validate_extract_args(vec![FnArgDesc::Receiver, typed("a", slice_ref())]);
    assert_eq!(r, Err(TransformError::Syntax(SyntaxIssue::SelfParameter)));
}

#[test]
fn decorated_parameter_is_a_syntax_error() {
    let arg = FnArgDesc::Typed { attrs: 1, pat: s("a"), ty: slice_ref() };
    assert_eq!(
        validate_extract_args(vec![arg]),
        Err(TransformError::Syntax(SyntaxIssue::ParameterAttributes))
    );
}

#[test]
fn unsupported_type_names_the_first_offender() {
    let r = validate_extract_args(vec![
        typed("ok", slice_ref()),
        typed("bad", TypeDesc::Path(Some(s("u32")))),
        typed("worse", TypeDesc::Other),
    ]);
    assert_eq!(r, Err(TransformError::UnsupportedType { param: s("bad") }));
}

#[test]
fn net_values() {
    assert_eq!(resolve(vec![str_attr("net", "mainnet")]).unwrap().net, Some(Net::MainNet));
    assert_eq!(resolve(vec![str_attr("net", "Mainnet")]).unwrap().net, Some(Net::MainNet));
    assert_eq!(resolve(vec![str_attr("net", "TESTNET")]).unwrap().net, Some(Net::TestNet));
    assert_eq!(
        resolve(vec![str_attr("net", "stagenet")]),
        Err(TransformError::InvalidAttributeValue { key: s("net") })
    );
    assert_eq!(
        resolve(vec![attr("net", AttrValue::Int(s("1")))]),
        Err(TransformError::InvalidAttributeValue { key: s("net") })
    );
}

#[test]
fn net_selector_ignores_case_only_through_lowercasing() {
    assert_eq!(net_from_text("MainNet"), Some(Net::MainNet));
    assert_eq!(net_from_lowered(&s("MainNet")), None);
    assert_eq!(net_from_lowered(&s("mainnet")), Some(Net::MainNet));
}

#[test]
fn port_as_text_or_integer() {
    assert_eq!(resolve(vec![str_attr("rpc_port", "8080")]).unwrap().rpc_port, Some(8080));
    assert_eq!(
        resolve(vec![attr("rpc_port", AttrValue::Int(s("8080")))]).unwrap().rpc_port,
        Some(8080)
    );
}

#[test]
fn port_text_bounds() {
    assert_eq!(parse_port("0"), Some(0));
    assert_eq!(parse_port("65535"), Some(65535));
    assert_eq!(parse_port("+42"), Some(42));
    assert_eq!(parse_port("65536"), None);
    assert_eq!(parse_port("999999999999"), None);
    assert_eq!(parse_port(""), None);
    assert_eq!(parse_port("+"), None);
    assert_eq!(parse_port("-1"), None);
    assert_eq!(parse_port("80a"), None);
    assert_eq!(
        resolve(vec![str_attr("rpc_port", "70000")]),
        Err(TransformError::InvalidAttributeValue { key: s("rpc_port") })
    );
}

#[test]
fn last_assignment_wins() {
    let p = resolve(vec![str_attr("net", "testnet"), str_attr("net", "mainnet")]).unwrap();
    assert_eq!(p.net, Some(Net::MainNet));
    let p = resolve(vec![str_attr("rpc_port", "1"), attr("rpc_port", AttrValue::Int(s("2")))])
        .unwrap();
    assert_eq!(p.rpc_port, Some(2));
}

#[test]
fn string_settings() {
    let p = resolve(vec![str_attr("datadir", "/data"), str_attr("rpc_address", "10.0.0.1")])
        .unwrap();
    assert_eq!(p.datadir, Some(s("/data")));
    assert_eq!(p.rpc_address, Some(s("10.0.0.1")));
    assert_eq!(p.rpc_port, None);
    assert_eq!(p.net, None);
    assert_eq!(
        resolve(vec![attr("datadir", AttrValue::Other)]),
        Err(TransformError::InvalidAttributeValue { key: s("datadir") })
    );
    assert_eq!(
        resolve(vec![attr("rpc_address", AttrValue::Int(s("1")))]),
        Err(TransformError::InvalidAttributeValue { key: s("rpc_address") })
    );
}

#[test]
fn unknown_key_is_refused() {
    assert_eq!(
        resolve(vec![str_attr("net", "mainnet"), str_attr("timeout", "5")]),
        Err(TransformError::UnknownAttribute { key: s("timeout") })
    );
    let p = GwasmParams { datadir: None, rpc_address: None, rpc_port: None, net: None };
    assert_eq!(
        apply_attr(p, &str_attr("host", "x")),
        Err(TransformError::UnknownAttribute { key: s("host") })
    );
}

#[test]
fn defaults_fill_unset_settings() {
    let p = resolve(vec![]).unwrap();
    let c = p.with_defaults(Some(s("/home/u/golem/default"))).unwrap();
    assert_eq!(
        c,
        Config {
            datadir: s("/home/u/golem/default"),
            rpc_address: s("127.0.0.1"),
            rpc_port: 61000,
            net: Net::TestNet,
        }
    );
    assert_eq!(DEFAULT_RPC_PORT, 61000);
    let p = resolve(vec![]).unwrap();
    assert_eq!(
        p.with_defaults(None),
        Err(TransformError::MissingEnvironment(MissingSetting::DataDirectory))
    );
}

#[test]
fn given_datadir_needs_no_lookup() {
    let p = resolve(vec![str_attr("datadir", "/d")]).unwrap();
    let c = p.into_config().unwrap();
    assert_eq!(c.datadir, "/d");
}

#[test]
fn build_env_from_variables() {
    let b = BuildEnv::from_vars(Some(s("/out")), true).unwrap();
    assert_eq!(b.strategy, Strategy::LocalSandbox);
    assert_eq!(b.out_dir, "/out");
    assert_eq!(BuildEnv::from_vars(Some(s("/out")), false).unwrap().strategy, Strategy::Distributed);
    assert!(matches!(
        BuildEnv::from_vars(None, true),
        Err(TransformError::MissingEnvironment(MissingSetting::OutputDirectory))
    ));
}

fn three_param_fn() -> GwasmFn {
    GwasmFn {
        vis: s("pub"),
        ident: s("mix"),
        args: vec![typed("a", slice_ref()), typed("b", slice_ref()), typed("c", slice_ref())],
        ret: s("-> Vec<u8>"),
        body: s("{ vec![] }"),
    }
}

#[test]
fn distributed_plan_for_three_parameters() {
    let attrs = GwasmAttrs(vec![str_attr("datadir", "/d"), str_attr("net", "Mainnet")]);
    let e = remote_fn_impl(&attrs, three_param_fn(), Some(s("/out")), false).unwrap();
    assert_eq!(e.ident, "mix");
    assert_eq!(e.params.len(), 3);
    assert_eq!(e.dispatch, DispatchPlan::Distributed { subtask_params: vec![0, 1, 2] });
    assert_eq!(e.kernel_pops, vec![2, 1, 0]);
    assert_eq!(e.config.net, Net::MainNet);
    assert_eq!(e.config.rpc_port, 61000);
    assert_eq!(e.js_path, vec![s("/out"), s("bin"), s("mix.js")]);
    assert_eq!(e.wasm_path, vec![s("/out"), s("bin"), s("mix.wasm")]);
    assert_eq!(
        e.kernel_path,
        vec![s("/out"), s("gfaas_modules"), s("src"), s("bin"), s("mix.rs")]
    );
}

#[test]
fn distributed_plan_for_one_parameter() {
    let attrs = GwasmAttrs(vec![str_attr("datadir", "/d")]);
    let mut f = three_param_fn();
    f.args.truncate(1);
    let e = remote_fn_impl(&attrs, f, Some(s("/out")), false).unwrap();
    assert_eq!(e.dispatch, DispatchPlan::Distributed { subtask_params: vec![0] });
    assert_eq!(e.kernel_pops, vec![0]);
}

#[test]
fn local_plan_reads_only_the_first_parameter() {
    let attrs = GwasmAttrs(vec![str_attr("datadir", "/d")]);
    let e = remote_fn_impl(&attrs, three_param_fn(), Some(s("/out")), true).unwrap();
    assert_eq!(e.dispatch, DispatchPlan::LocalSandbox { input_param: 0 });
    assert_eq!(e.kernel_pops, vec![2, 1, 0]);
}

#[test]
fn zero_parameters_are_refused() {
    let attrs = GwasmAttrs(vec![str_attr("datadir", "/d")]);
    let mut f = three_param_fn();
    f.args.clear();
    assert_eq!(remote_fn_impl(&attrs, f, Some(s("/out")), false), Err(TransformError::NoParameters));
}

#[test]
fn missing_output_directory_is_refused() {
    let attrs = GwasmAttrs(vec![str_attr("datadir", "/d")]);
    assert_eq!(
        remote_fn_impl(&attrs, three_param_fn(), None, false),
        Err(TransformError::MissingEnvironment(MissingSetting::OutputDirectory))
    );
}

#[test]
fn attribute_errors_come_before_parameter_errors() {
    let attrs = GwasmAttrs(vec![str_attr("net", "stagenet")]);
    let mut f = three_param_fn();
    f.args.push(FnArgDesc::Receiver);
    assert_eq!(
        remote_fn_impl(&attrs, f, Some(s("/out")), false),
        Err(TransformError::InvalidAttributeValue { key: s("net") })
    );
}

#[test]
fn build_expansion_error_order() {
    let p = || GwasmParams { datadir: None, rpc_address: None, rpc_port: None, net: None };
    assert_eq!(
        build_expansion(s("f"), vec![], p(), None, None, false),
        Err(TransformError::MissingEnvironment(MissingSetting::DataDirectory))
    );
    assert_eq!(
        build_expansion(s("f"), vec![], p(), Some(s("/d")), None, false),
        Err(TransformError::MissingEnvironment(MissingSetting::OutputDirectory))
    );
    assert_eq!(
        build_expansion(s("f"), vec![], p(), Some(s("/d")), Some(s("/o")), false),
        Err(TransformError::NoParameters)
    );
    let e = build_expansion(
        s("f"),
        vec![Param { pat: s("x"), ty: slice_ref() }],
        p(),
        Some(s("/d")),
        Some(s("/o")),
        false,
    )
    .unwrap();
    assert_eq!(e.config.datadir, "/d");
    assert_eq!(e.config.rpc_address, "127.0.0.1");
}
