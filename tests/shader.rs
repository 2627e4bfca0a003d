use comengine::renderer::shader::{
    check_for_errors, info_log_len, parse, parse_read, Shader, ShaderError, ShaderStage,
};

#[test]
fn parse_two_stages() {
    let src = "#stage vertex\nvoid main() {}\n\n#stage fragment\nout vec4 c;\nvoid main() {}\n";
    let (v, f) = parse(src).unwrap();
    assert_eq!(v, "\nvoid main() {}");
    assert_eq!(f, "\nout vec4 c;\nvoid main() {}");
}

#[test]
fn parse_indented_directives() {
    let src = "\n    #stage vertex\n    #version 330 core\n    #stage fragment\n    out vec4 FragColor;\n    ";
    let (v, f) = parse(src).unwrap();
    assert_eq!(v, "\n    #version 330 core");
    assert_eq!(f, "\n    out vec4 FragColor;\n    ");
}

#[test]
fn parse_fragment_first_and_repeated_directives() {
    let src = "#stage fragment\nf1\n#stage vertex\nv1\n#stage fragment\nf2";
    let (v, f) = parse(src).unwrap();
    assert_eq!(v, "\nv1");
    assert_eq!(f, "\nf1\nf2");
}

#[test]
fn parse_empty_stages() {
    assert_eq!(parse("").unwrap(), (String::new(), String::new()));
    assert_eq!(parse("#stage vertex\n#stage fragment\n").unwrap(), (String::new(), String::new()));
}

#[test]
fn parse_code_before_directive_fails() {
    assert_eq!(parse("void main() {}\n#stage vertex\n"), Err(ShaderError::Parse));
    assert_eq!(parse("\n\n  x\n#stage fragment\ny"), Err(ShaderError::Parse));
    assert_eq!(parse("#stage vert\nx"), Err(ShaderError::Parse));
}

#[test]
fn parse_round_trip() {
    let src = "#stage fragment\nb1\n\nb2\n#stage vertex\na1\na2\n";
    let (v, f) = parse(src).unwrap();
    let again = format!("#stage vertex{}\n#stage fragment{}", v, f);
    assert_eq!(parse(&again).unwrap(), (v, f));
}

#[test]
fn parse_round_trip_empty_vertex() {
    let src = "#stage fragment\nb1\nb2";
    let (v, f) = parse(src).unwrap();
    assert_eq!(v, "");
    let again = format!("#stage vertex\n{}#stage fragment\n{}", v, f);
    assert_eq!(parse(&again).unwrap(), (v, f));
}

#[test]
fn compile_errors_report_vertex_first() {
    let r = check_for_errors(false, "v bad".to_string(), false, "f bad".to_string());
    assert_eq!(r, Err(ShaderError::Compile { stage: ShaderStage::Vertex, log: "v bad".to_string() }));
}

#[test]
fn compile_error_in_fragment_only() {
    let r = check_for_errors(true, String::new(), false, "f bad".to_string());
    assert_eq!(r, Err(ShaderError::Compile { stage: ShaderStage::Fragment, log: "f bad".to_string() }));
}

#[test]
fn compile_success() {
    assert_eq!(check_for_errors(true, String::new(), true, String::new()), Ok(()));
}

#[test]
fn failed_read_is_io_error() {
    let r = parse_read(Err("No such file or directory".to_string()));
    assert_eq!(r, Err(ShaderError::Io("No such file or directory".to_string())));
}

#[test]
fn successful_read_is_parsed() {
    assert_eq!(
        parse_read(Ok("#stage vertex\na\n#stage fragment\nb".to_string())),
        Ok(("\na".to_string(), "\nb".to_string()))
    );
    assert_eq!(parse_read(Ok("a".to_string())), Err(ShaderError::Parse));
}

#[test]
fn info_log_stops_at_terminator() {
    let mut buf = b"error: x".to_vec();
    buf.push(0);
    buf.extend_from_slice(b"garbage");
    assert_eq!(info_log_len(&buf), 8);
    assert_eq!(info_log_len(&vec![7u8; 600]), 511);
    assert_eq!(info_log_len(&vec![7u8; 20]), 20);
    assert_eq!(info_log_len(&Vec::new()), 0);
}

#[test]
fn shader_program_id() {
    assert_eq!(Shader::linked(42).program(), 42);
}
