use rustcraft::layout::{parse_layout, vertex_count, AttribKind, Attribute, LayoutError};
use rustcraft::log::{format_line, Level, Logger};
use rustcraft::model_file::{
    decode_model, digit_runs_ok, load_model, Field, Json, JsonNumber, LoadError, ModelFileError, ModelKind,
};
use rustcraft::shader::{pair_sources, stage_of, ShaderFile, Stage};

#[test]
fn layout_of_position_color_texcoord() {
    let l = parse_layout("3f;3f;2f").unwrap();
    assert_eq!(l.stride, 32);
    assert_eq!(
        l.attributes,
        vec![
            Attribute { kind: AttribKind::Float, count: 3, offset: 0 },
            Attribute { kind: AttribKind::Float, count: 3, offset: 12 },
            Attribute { kind: AttribKind::Float, count: 2, offset: 24 },
        ]
    );
}

#[test]
fn layout_mixed_types() {
    let l = parse_layout("2i;4b;1u").unwrap();
    assert_eq!(l.stride, 8 + 4 + 4);
    assert_eq!(l.attributes[1], Attribute { kind: AttribKind::Bool, count: 4, offset: 8 });
    assert_eq!(l.attributes[2], Attribute { kind: AttribKind::UnsignedInt, count: 1, offset: 12 });
}

#[test]
fn layout_errors() {
    assert_eq!(parse_layout(""), Err(LayoutError::Malformed));
    assert_eq!(parse_layout("3f;"), Err(LayoutError::Malformed));
    assert_eq!(parse_layout("3x"), Err(LayoutError::Malformed));
    assert_eq!(parse_layout("5f"), Err(LayoutError::Malformed));
    assert_eq!(parse_layout("12f"), Err(LayoutError::Malformed));
    let fits = vec!["4f"; 128].join(";");
    assert_eq!(parse_layout(&fits).unwrap().stride, 2048);
    let many = vec!["4f"; 129].join(";");
    assert_eq!(parse_layout(&many), Err(LayoutError::TooLarge));
    let late = format!("{};9f", many);
    assert_eq!(parse_layout(&late), Err(LayoutError::Malformed));
}

fn file(stem: &str, ext: &str, source: &str) -> ShaderFile {
    ShaderFile { stem: stem.to_string(), ext: ext.to_string(), source: source.to_string() }
}

#[test]
fn shader_stages_by_extension() {
    assert_eq!(stage_of("vert"), Some(Stage::Vertex));
    assert_eq!(stage_of("vs"), Some(Stage::Vertex));
    assert_eq!(stage_of("frag"), Some(Stage::Fragment));
    assert_eq!(stage_of("fs"), Some(Stage::Fragment));
    assert_eq!(stage_of("glsl"), None);
}

#[test]
fn shader_sources_pair_by_name() {
    let files = vec![
        file("cube", "vert", "v1"),
        file("cube", "frag", "f1"),
        file("test", "vs", "v2"),
        file("lonely", "fs", "f3"),
        file("notes", "txt", "x"),
        file("test", "fs", "f2"),
        file("only", "vert", "v4"),
    ];
    let p = pair_sources(&files);
    let mut names: Vec<(String, String, String)> = p
        .pairs
        .iter()
        .map(|q| (q.name.clone(), q.vertex.clone(), q.fragment.clone()))
        .collect();
    names.sort();
    assert_eq!(
        names,
        vec![
            ("cube".to_string(), "v1".to_string(), "f1".to_string()),
            ("test".to_string(), "v2".to_string(), "f2".to_string()),
        ]
    );
    assert_eq!(p.lone_vertex, vec!["only".to_string()]);
    assert_eq!(p.lone_fragment, vec!["lonely".to_string()]);
}

#[test]
fn later_shader_file_replaces_earlier() {
    let files = vec![file("a", "vert", "old"), file("a", "frag", "f"), file("a", "vs", "new")];
    let p = pair_sources(&files);
    assert_eq!(p.pairs.len(), 1);
    assert_eq!(p.pairs[0].vertex, "new");
}

#[test]
fn level_filter_and_line() {
    let mut logger = Logger::new();
    assert!(!logger.accepts(Level::Debug));
    assert!(logger.accepts(Level::Warn));
    logger.set_level(Level::Error);
    assert!(!logger.accepts(Level::Warn));
    assert!(Level::Error.enabled(Level::Debug));
    logger.set_file(Some("out/log.txt".to_string()));
    assert_eq!(logger.file.as_deref(), Some("out/log.txt"));
    assert_eq!(
        format_line("2024-01-01 00:00:00", Level::Info, "test", "test message"),
        "2024-01-01 00:00:00 [INFO]                  test |: test message\n"
    );
    assert_eq!(
        format_line("t", Level::Error, "a-very-long-owner-name-here", "m"),
        "t [ERROR] a-very-long-owner-name-here |: m\n"
    );
}

fn num(m: u64) -> Json {
    Json::Number(JsonNumber { positive: true, mantissa: m, exponent: 0 })
}

fn s(x: &str) -> Json {
    Json::Str(x.to_string())
}

fn obj(fields: Vec<(&str, Json)>) -> Json {
    Json::Object(fields.into_iter().map(|(k, v)| (k.to_string(), v)).collect())
}

#[test]
fn element_model_decodes() {
    let doc = obj(vec![
        ("type", s("element")),
        ("name", s("cube")),
        ("vertices", Json::Array(vec![num(1), num(2)])),
        ("indices", Json::Array(vec![num(0), num(1), num(1)])),
        ("description", s("1f")),
    ]);
    let m = decode_model(&doc).unwrap();
    assert_eq!(m.kind, ModelKind::Element);
    assert_eq!(m.name, "cube");
    assert_eq!(m.indices, vec![0, 1, 1]);
    assert_eq!(m.vertices.len(), 2);
    assert_eq!(m.description, "1f");
}

#[test]
fn array_model_needs_no_indices() {
    let doc = obj(vec![
        ("type", s("array")),
        ("name", s("tri")),
        ("description", s("3f")),
        ("vertices", Json::Array(vec![num(0), num(1), num(2)])),
    ]);
    let m = decode_model(&doc).unwrap();
    assert_eq!(m.kind, ModelKind::Array);
    assert!(m.indices.is_empty());
}

#[test]
fn model_file_errors() {
    assert_eq!(decode_model(&Json::Null).unwrap_err(), ModelFileError::NotObject);
    assert_eq!(
        decode_model(&obj(vec![("name", s("x"))])).unwrap_err(),
        ModelFileError::MissingField(Field::Type)
    );
    assert_eq!(
        decode_model(&obj(vec![("type", num(1))])).unwrap_err(),
        ModelFileError::InvalidField(Field::Type)
    );
    assert_eq!(
        decode_model(&obj(vec![("type", s("mesh"))])).unwrap_err(),
        ModelFileError::UnknownType("mesh".to_string())
    );
    let base = |indices: Json| {
        obj(vec![
            ("type", s("element")),
            ("name", s("n")),
            ("description", s("1f")),
            ("vertices", Json::Array(vec![num(1)])),
            ("indices", indices),
        ])
    };
    assert_eq!(
        decode_model(&base(Json::Bool(true))).unwrap_err(),
        ModelFileError::NotArray(Field::Indices)
    );
    assert_eq!(
        decode_model(&base(Json::Array(vec![num(0), s("1")]))).unwrap_err(),
        ModelFileError::NotNumber(Field::Indices)
    );
    assert_eq!(
        decode_model(&base(Json::Array(vec![num(0x1_0000_0000)]))).unwrap_err(),
        ModelFileError::BadIndex
    );
    assert_eq!(
        decode_model(&obj(vec![("type", s("element")), ("name", s("n"))])).unwrap_err(),
        ModelFileError::MissingField(Field::Description)
    );
    assert_eq!(
        decode_model(&obj(vec![
            ("type", s("array")),
            ("name", num(3)),
            ("description", s("1f")),
            ("vertices", Json::Array(vec![])),
        ]))
        .unwrap_err(),
        ModelFileError::InvalidField(Field::Name)
    );
    assert_eq!(
        decode_model(&obj(vec![
            ("type", s("array")),
            ("name", s("n")),
            ("description", s("1f")),
            ("vertices", Json::Array(vec![Json::Null])),
        ]))
        .unwrap_err(),
        ModelFileError::NotNumber(Field::Vertices)
    );
}

#[test]
fn model_text_loads_through_parser() {
    let text = r#"{"type":"element","name":"Face","vertices":[0.5,-0.5,1],"indices":[0,1,2],"description":"3f"}"#;
    let m = load_model(text).unwrap();
    assert_eq!(m.name, "Face");
    assert_eq!(m.indices, vec![0, 1, 2]);
    assert_eq!(m.vertices[0], JsonNumber { positive: true, mantissa: 5, exponent: -1 });
    assert_eq!(m.vertices[1], JsonNumber { positive: false, mantissa: 5, exponent: -1 });
    assert_eq!(load_model("{").unwrap_err(), LoadError::Syntax);
    assert_eq!(
        load_model(r#"{"type":"array"}"#).unwrap_err(),
        LoadError::Model(ModelFileError::MissingField(Field::Name))
    );
}

#[test]
fn long_digit_runs_are_refused_before_parsing() {
    let fraction = format!("0.{}", "0".repeat(32768));
    assert!(!digit_runs_ok(&fraction));
    assert!(digit_runs_ok(&"9".repeat(32767)));
    assert!(!digit_runs_ok(&"9".repeat(32768)));
    assert!(digit_runs_ok("[1, 22, 333]"));
    let text = format!(r#"{{"type":"array","name":"n","description":"1f","vertices":[{}]}}"#, fraction);
    assert_eq!(load_model(&text).unwrap_err(), LoadError::NumberTooLong);
}

#[test]
fn draw_count_from_layout() {
    let l = parse_layout("3f;3f;2f").unwrap();
    assert_eq!(vertex_count(&l, 32), Some(4));
    assert_eq!(vertex_count(&l, 33), Some(4));
    let b = parse_layout("1b").unwrap();
    assert_eq!(vertex_count(&b, 0x4000_0000), None);
    assert_eq!(vertex_count(&b, 10), Some(40));
}
