use axbind::config::{ConfigTable, ConfigValue, TableHandle};
use axbind::context::Context;
use axbind::errors::{BindError, ExecutionError, ResolutionError};
use axbind::filebase::Filebase;
use axbind::pipeline::{
    apply_internal, assemble_group_output, subst, unescape, CapturePipeline, StepStatus,
};
use axbind::schema::{
    BindFile, Capture, CommandFunction, Function, FunctionFile, FunctionLayer, FunctionPipeline,
    Group, InternalFunction, Layer, MapFile, MapLayer, MetaOpts,
};

fn s(x: &str) -> String {
    x.to_owned()
}

fn internal_function(name: &str) -> FunctionFile {
    FunctionFile {
        meta: None,
        function: Function {
            parameters: None,
            parameter_format: None,
            pipeline: FunctionPipeline::Internal(
                InternalFunction { internal: s(name), args: None },
            ),
        },
        source_path: s("test"),
    }
}

fn command_function(binary: &str) -> FunctionFile {
    FunctionFile {
        meta: None,
        function: Function {
            parameters: None,
            parameter_format: None,
            pipeline: FunctionPipeline::Command(
                CommandFunction { binary: s(binary), stdin: None, args: None },
            ),
        },
        source_path: s("test"),
    }
}

fn cap_ctx() -> Context {
    Context::root(s("cap"))
}

fn map_capture(map: &str) -> Capture {
    Capture {
        capture: s("frag"),
        escape: None,
        layers: vec![Layer::Mapping(MapLayer { map: s(map) })],
    }
}

#[test]
fn subst_placeholders() {
    let args = vec![s("one"), s("two")];
    assert_eq!(subst("%0-%1-%2", "T", &args), s("T-one-two"));
    assert_eq!(subst("100%%", "T", &args), s("100%"));
    assert_eq!(subst("%9!", "T", &args), s("!"));
    assert_eq!(subst("%x", "T", &args), s("%x"));
    assert_eq!(subst("", "T", &args), s(""));
    assert_eq!(subst("plain", "T", &args), s("plain"));
}

#[test]
fn unescape_removes_markers() {
    assert_eq!(unescape("a@xb", "@"), s("axb"));
    assert_eq!(unescape("a@@b", "@"), s("a@b"));
    assert_eq!(unescape("ab", ""), s("ab"));
    assert_eq!(unescape("ab@", "@"), s("ab"));
    assert_eq!(unescape("@@", "@"), s("@"));
    assert_eq!(unescape("", "@"), s(""));
}

#[test]
fn internal_transforms() {
    assert_eq!(apply_internal("upper", &vec![], "aBc1").unwrap(), s("ABC1"));
    assert_eq!(apply_internal("lower", &vec![], "AbC1").unwrap(), s("abc1"));
    assert_eq!(apply_internal("reverse", &vec![], "abc").unwrap(), s("cba"));
    assert_eq!(apply_internal("prefix", &vec![s(">")], "x").unwrap(), s(">x"));
    assert_eq!(apply_internal("suffix", &vec![s("<")], "x").unwrap(), s("x<"));
    assert!(apply_internal("frobnicate", &vec![], "x").is_none());
}

#[test]
fn layer_pipeline_order() {
    // text "a" through Map(double-it) then Function(upper) gives "AA"
    let mut maps: Filebase<MapFile> = Filebase::new(s("maps"));
    maps.insert(
        s("double-it"),
        MapFile { inclusions: vec![], values: vec![(s("a"), s("aa"))], source_path: s("t") },
    );
    let mut functions: Filebase<FunctionFile> = Filebase::new(s("functions"));
    functions.insert(s("uppercase"), internal_function("upper"));
    let capture = Capture {
        capture: s("frag"),
        escape: None,
        layers: vec![
            Layer::Mapping(MapLayer { map: s("double-it") }),
            Layer::Function(FunctionLayer { function: s("uppercase"), args: None }),
        ],
    };
    let global = MetaOpts::default();
    let mut p = CapturePipeline::new(s("a"), &capture, &global, cap_ctx());
    assert!(matches!(p.step(&maps, &functions), StepStatus::Advanced));
    assert!(matches!(p.step(&maps, &functions), StepStatus::Advanced));
    assert!(matches!(p.step(&maps, &functions), StepStatus::Finished));
    assert_eq!(p.finish().unwrap(), s("AA"));
}

#[test]
fn partial_failure_isolation() {
    // of three captures, the second names an unresolved map: the other
    // two still produce output, and exactly one error is reported
    let mut maps: Filebase<MapFile> = Filebase::new(s("maps"));
    maps.insert(
        s("good"),
        MapFile { inclusions: vec![], values: vec![(s("in"), s("out"))], source_path: s("t") },
    );
    let functions: Filebase<FunctionFile> = Filebase::new(s("functions"));
    let global = MetaOpts::default();
    let mut results: Vec<Result<String, BindError>> = Vec::new();
    for map in ["good", "nowhere", "good"] {
        let capture = map_capture(map);
        let mut p = CapturePipeline::new(s("in"), &capture, &global, cap_ctx());
        loop {
            match p.step(&maps, &functions) {
                StepStatus::Advanced => {},
                StepStatus::NeedsMap { identifier } => {
                    // the loader finds no such file
                    p.load_failed(BindError::Load {
                        identifier: identifier.clone(),
                        path: format!("maps/{}.toml", identifier),
                        detail: s("no such file"),
                    });
                    break;
                },
                StepStatus::Finished | StepStatus::Failed => break,
                other => panic!("unexpected status: {}", status_name(&other)),
            }
        }
        results.push(p.finish());
    }
    let (output, failures) = assemble_group_output(results);
    assert_eq!(output, s("out\nout\n"));
    assert_eq!(failures.len(), 1);
    match &failures[0] {
        BindError::Load { identifier, .. } => assert_eq!(identifier, &s("nowhere")),
        _ => panic!("wrong error kind"),
    }
}

#[test]
fn missing_key_is_capture_failure() {
    let mut maps: Filebase<MapFile> = Filebase::new(s("maps"));
    maps.insert(
        s("good"),
        MapFile { inclusions: vec![], values: vec![(s("in"), s("out"))], source_path: s("t") },
    );
    let functions: Filebase<FunctionFile> = Filebase::new(s("functions"));
    let capture = map_capture("good");
    let global = MetaOpts::default();
    let mut p = CapturePipeline::new(s("unbound"), &capture, &global, cap_ctx());
    assert!(matches!(p.step(&maps, &functions), StepStatus::Failed));
    match p.finish().unwrap_err() {
        BindError::Resolution { context, error: ResolutionError::NoSuchMapping { map, key } } => {
            assert_eq!(map, s("good"));
            assert_eq!(key, s("unbound"));
            assert_eq!(context.render(), s("cap"));
        },
        _ => panic!("wrong error kind"),
    }
}

#[test]
fn cyclic_inclusion_is_capture_failure() {
    let mut maps: Filebase<MapFile> = Filebase::new(s("maps"));
    maps.insert(
        s("a"),
        MapFile { inclusions: vec![s("b")], values: vec![], source_path: s("t") },
    );
    maps.insert(
        s("b"),
        MapFile { inclusions: vec![s("a")], values: vec![], source_path: s("t") },
    );
    let functions: Filebase<FunctionFile> = Filebase::new(s("functions"));
    let capture = map_capture("a");
    let global = MetaOpts::default();
    let mut p = CapturePipeline::new(s("x"), &capture, &global, cap_ctx());
    assert!(matches!(p.step(&maps, &functions), StepStatus::Failed));
    assert!(matches!(
        p.finish().unwrap_err(),
        BindError::Resolution { error: ResolutionError::CyclicInclusion { .. }, .. }
    ));
}

#[test]
fn unknown_internal_is_execution_error() {
    let maps: Filebase<MapFile> = Filebase::new(s("maps"));
    let mut functions: Filebase<FunctionFile> = Filebase::new(s("functions"));
    functions.insert(s("odd"), internal_function("frobnicate"));
    let capture = Capture {
        capture: s("frag"),
        escape: None,
        layers: vec![Layer::Function(FunctionLayer { function: s("odd"), args: None })],
    };
    let global = MetaOpts::default();
    let mut p = CapturePipeline::new(s("x"), &capture, &global, cap_ctx());
    assert!(matches!(p.step(&maps, &functions), StepStatus::Failed));
    match p.finish().unwrap_err() {
        BindError::Execution { error: ExecutionError::UnknownInternal { name }, .. } => {
            assert_eq!(name, s("frobnicate"));
        },
        _ => panic!("wrong error kind"),
    }
}

#[test]
fn command_failure_is_isolated() {
    // a non-zero exit is an execution error and does not disturb a
    // sibling capture's result
    let maps: Filebase<MapFile> = Filebase::new(s("maps"));
    let mut functions: Filebase<FunctionFile> = Filebase::new(s("functions"));
    functions.insert(s("run"), command_function("/bin/definitely"));
    functions.insert(s("up"), internal_function("upper"));
    let global = MetaOpts::default();

    let failing = Capture {
        capture: s("frag"),
        escape: None,
        layers: vec![Layer::Function(FunctionLayer { function: s("run"), args: None })],
    };
    let mut p1 = CapturePipeline::new(s("hello"), &failing, &global, cap_ctx());
    match p1.step(&maps, &functions) {
        StepStatus::RunCommand { binary, args, stdin } => {
            assert_eq!(binary, s("/bin/definitely"));
            assert_eq!(args, Vec::<String>::new());
            assert_eq!(stdin, s("hello"));
        },
        other => panic!("unexpected status: {}", status_name(&other)),
    }
    p1.command_done(s(""), false);

    let fine = Capture {
        capture: s("frag"),
        escape: None,
        layers: vec![Layer::Function(FunctionLayer { function: s("up"), args: None })],
    };
    let mut p2 = CapturePipeline::new(s("hello"), &fine, &global, cap_ctx());
    assert!(matches!(p2.step(&maps, &functions), StepStatus::Advanced));
    assert!(matches!(p2.step(&maps, &functions), StepStatus::Finished));

    let (output, failures) = assemble_group_output(vec![p1.finish(), p2.finish()]);
    assert_eq!(output, s("HELLO\n"));
    assert_eq!(failures.len(), 1);
    match &failures[0] {
        BindError::Execution { error: ExecutionError::CommandFailed { binary }, .. } => {
            assert_eq!(binary, &s("/bin/definitely"));
        },
        _ => panic!("wrong error kind"),
    }
}

#[test]
fn command_success_feeds_stdout() {
    let maps: Filebase<MapFile> = Filebase::new(s("maps"));
    let mut functions: Filebase<FunctionFile> = Filebase::new(s("functions"));
    functions.insert(s("run"), command_function("/bin/echoish"));
    let capture = Capture {
        capture: s("frag"),
        escape: None,
        layers: vec![Layer::Function(FunctionLayer { function: s("run"), args: None })],
    };
    let global = MetaOpts::default();
    let mut p = CapturePipeline::new(s("in"), &capture, &global, cap_ctx());
    assert!(matches!(p.step(&maps, &functions), StepStatus::RunCommand { .. }));
    p.command_done(s("from-command"), true);
    assert!(matches!(p.step(&maps, &functions), StepStatus::Finished));
    assert_eq!(p.finish().unwrap(), s("from-command"));
}

#[test]
fn escape_scopes_overlay() {
    // the capture's escape override wins over the global setting and is
    // applied to the final text
    let maps: Filebase<MapFile> = Filebase::new(s("maps"));
    let functions: Filebase<FunctionFile> = Filebase::new(s("functions"));
    let capture = Capture { capture: s("frag"), escape: Some(s("@")), layers: vec![] };
    let global = MetaOpts { escape: Some(s("#")), proxy: None };
    let mut p = CapturePipeline::new(s("a@b#c"), &capture, &global, cap_ctx());
    assert!(matches!(p.step(&maps, &functions), StepStatus::Finished));
    assert_eq!(p.finish().unwrap(), s("ab#c"));
}

fn status_name(st: &StepStatus) -> &'static str {
    match st {
        StepStatus::Advanced => "Advanced",
        StepStatus::NeedsMap { .. } => "NeedsMap",
        StepStatus::NeedsFunction { .. } => "NeedsFunction",
        StepStatus::RunCommand { .. } => "RunCommand",
        StepStatus::Finished => "Finished",
        StepStatus::Failed => "Failed",
    }
}

#[test]
fn bindfile_plan() {
    let bind = BindFile {
        meta: Some(MetaOpts { escape: Some(s("@")), proxy: None }),
        groups: vec![Group {
            files: vec![s("src/*.c")],
            axbind_filename: s("out.gen"),
            captures: vec![map_capture("good")],
        }],
        source_path: s("axbind.toml"),
    };
    let plan = bind.apply();
    assert_eq!(plan.len(), 1);
    assert_eq!(plan[0].axbind_filename, &s("out.gen"));
    assert_eq!(plan[0].files, &vec![s("src/*.c")]);
    assert_eq!(plan[0].captures.len(), 1);
    assert_eq!(plan[0].opts.escape, Some(s("@")));
}

#[test]
fn extraction_functionfile() {
    let t = ConfigTable {
        entries: vec![
            (
                s("meta"),
                ConfigValue::Table(ConfigTable {
                    entries: vec![(s("escape"), ConfigValue::Text(s("@")))],
                }),
            ),
            (
                s("function"),
                ConfigValue::Table(ConfigTable {
                    entries: vec![(
                        s("pipeline"),
                        ConfigValue::Table(ConfigTable {
                            entries: vec![
                                (s("internal"), ConfigValue::Text(s("upper"))),
                                (
                                    s("args"),
                                    ConfigValue::List(vec![ConfigValue::Text(s("a1"))]),
                                ),
                            ],
                        }),
                    )],
                }),
            ),
        ],
    };
    let h = TableHandle::new_root(&t, s("functions/f.toml"));
    let f = FunctionFile::from_table(&h, s("functions/f.toml")).unwrap();
    assert_eq!(f.meta.as_ref().unwrap().escape, Some(s("@")));
    match &f.function.pipeline {
        FunctionPipeline::Internal(i) => {
            assert_eq!(i.internal, s("upper"));
            assert_eq!(i.args, Some(vec![s("a1")]));
        },
        _ => panic!("wrong pipeline kind"),
    }
    // a pipeline with neither binary nor internal is a shape error
    let bad = ConfigTable {
        entries: vec![(
            s("function"),
            ConfigValue::Table(ConfigTable {
                entries: vec![(
                    s("pipeline"),
                    ConfigValue::Table(ConfigTable { entries: vec![] }),
                )],
            }),
        )],
    };
    let hb = TableHandle::new_root(&bad, s("functions/bad.toml"));
    assert!(FunctionFile::from_table(&hb, s("functions/bad.toml")).is_err());
}

#[test]
fn extraction_bindfile() {
    let t = ConfigTable {
        entries: vec![(
            s("groups"),
            ConfigValue::List(vec![ConfigValue::Table(ConfigTable {
                entries: vec![
                    (s("files"), ConfigValue::List(vec![ConfigValue::Text(s("*.rs"))])),
                    (s("axbind_filename"), ConfigValue::Text(s("gen.txt"))),
                    (
                        s("captures"),
                        ConfigValue::List(vec![ConfigValue::Table(ConfigTable {
                            entries: vec![
                                (s("capture"), ConfigValue::Text(s("pat"))),
                                (
                                    s("layers"),
                                    ConfigValue::List(vec![
                                        ConfigValue::Table(ConfigTable {
                                            entries: vec![(
                                                s("map"),
                                                ConfigValue::Text(s("m1")),
                                            )],
                                        }),
                                        ConfigValue::Table(ConfigTable {
                                            entries: vec![(
                                                s("function"),
                                                ConfigValue::Text(s("f1")),
                                            )],
                                        }),
                                    ]),
                                ),
                            ],
                        })]),
                    ),
                ],
            })]),
        )],
    };
    let h = TableHandle::new_root(&t, s("axbind.toml"));
    let b = BindFile::from_table(&h, s("axbind.toml")).unwrap();
    assert_eq!(b.meta.is_none(), true);
    assert_eq!(b.groups.len(), 1);
    let g = &b.groups[0];
    assert_eq!(g.files, vec![s("*.rs")]);
    assert_eq!(g.axbind_filename, s("gen.txt"));
    assert_eq!(g.captures.len(), 1);
    let c = &g.captures[0];
    assert_eq!(c.capture, s("pat"));
    assert_eq!(c.escape, None);
    assert_eq!(c.layers.len(), 2);
    assert!(matches!(&c.layers[0], Layer::Mapping(ml) if ml.map == s("m1")));
    assert!(matches!(&c.layers[1], Layer::Function(fl) if fl.function == s("f1")));
}

#[test]
fn function_meta_joins_escape_overlay() {
    // effective escape overlays global -> function -> capture scopes
    let maps: Filebase<MapFile> = Filebase::new(s("maps"));
    let mut functions: Filebase<FunctionFile> = Filebase::new(s("functions"));
    let mut up = internal_function("upper");
    up.meta = Some(MetaOpts { escape: Some(s("@")), proxy: None });
    functions.insert(s("up"), up);
    let capture = Capture {
        capture: s("frag"),
        escape: None,
        layers: vec![Layer::Function(FunctionLayer { function: s("up"), args: None })],
    };
    let global = MetaOpts { escape: Some(s("#")), proxy: None };
    let mut p = CapturePipeline::new(s("a@b#c"), &capture, &global, cap_ctx());
    assert!(matches!(p.step(&maps, &functions), StepStatus::Advanced));
    assert!(matches!(p.step(&maps, &functions), StepStatus::Finished));
    // the function scope's escape wins over the global one
    assert_eq!(p.finish().unwrap(), s("AB#C"));
}

#[test]
fn command_parameter_format() {
    // declared parameters with a format collapse the argument list to
    // the instantiated format string
    let maps: Filebase<MapFile> = Filebase::new(s("maps"));
    let mut functions: Filebase<FunctionFile> = Filebase::new(s("functions"));
    functions.insert(
        s("fmt"),
        FunctionFile {
            meta: None,
            function: Function {
                parameters: Some(vec![s("x")]),
                parameter_format: Some(s("%1-%0")),
                pipeline: FunctionPipeline::Command(
                    CommandFunction {
                        binary: s("/bin/tool"),
                        stdin: Some(s("<%0>")),
                        args: Some(vec![s("A")]),
                    },
                ),
            },
            source_path: s("t"),
        },
    );
    let capture = Capture {
        capture: s("frag"),
        escape: None,
        layers: vec![Layer::Function(FunctionLayer { function: s("fmt"), args: None })],
    };
    let global = MetaOpts::default();
    let mut p = CapturePipeline::new(s("T"), &capture, &global, cap_ctx());
    match p.step(&maps, &functions) {
        StepStatus::RunCommand { binary, args, stdin } => {
            assert_eq!(binary, s("/bin/tool"));
            assert_eq!(args, vec![s("A-T")]);
            assert_eq!(stdin, s("<T>"));
        },
        other => panic!("unexpected status: {}", status_name(&other)),
    }
}

#[test]
fn layer_args_override_defaults() {
    let maps: Filebase<MapFile> = Filebase::new(s("maps"));
    let mut functions: Filebase<FunctionFile> = Filebase::new(s("functions"));
    functions.insert(
        s("aff"),
        FunctionFile {
            meta: None,
            function: Function {
                parameters: None,
                parameter_format: None,
                pipeline: FunctionPipeline::Internal(
                    InternalFunction { internal: s("prefix"), args: Some(vec![s("default:")]) },
                ),
            },
            source_path: s("t"),
        },
    );
    let global = MetaOpts::default();
    // the layer's own args win over the function's declared defaults
    let with_own = Capture {
        capture: s("frag"),
        escape: None,
        layers: vec![Layer::Function(
            FunctionLayer { function: s("aff"), args: Some(vec![s("own:")]) },
        )],
    };
    let mut p1 = CapturePipeline::new(s("x"), &with_own, &global, cap_ctx());
    assert!(matches!(p1.step(&maps, &functions), StepStatus::Advanced));
    assert!(matches!(p1.step(&maps, &functions), StepStatus::Finished));
    assert_eq!(p1.finish().unwrap(), s("own:x"));
    let with_default = Capture {
        capture: s("frag"),
        escape: None,
        layers: vec![Layer::Function(FunctionLayer { function: s("aff"), args: None })],
    };
    let mut p2 = CapturePipeline::new(s("x"), &with_default, &global, cap_ctx());
    assert!(matches!(p2.step(&maps, &functions), StepStatus::Advanced));
    assert!(matches!(p2.step(&maps, &functions), StepStatus::Finished));
    assert_eq!(p2.finish().unwrap(), s("default:x"));
}
