use zexe::shader::{clean_shader_source, shader_sources};

fn by_the_standard_library(source: &str) -> String {
    if source.trim().starts_with("#version") {
        source.lines().skip(1).collect::<Vec<_>>().join("\n")
    } else {
        source.to_string()
    }
}

fn clean(source: &str) -> String {
    let chars: Vec<char> = source.chars().collect();
    clean_shader_source(&chars).into_iter().collect()
}

#[test]
fn version_line_is_taken_out() {
    assert_eq!(clean("#version 120\nvoid main() {}\n"), "void main() {}");
    assert_eq!(clean("#version 120\r\na\r\nb\r\n"), "a\nb");
    assert_eq!(clean("  #version 120\na\n\nb"), "a\n\nb");
    assert_eq!(clean("#version 120"), "");
}

#[test]
fn other_source_stays_as_it_is() {
    assert_eq!(clean("void main() {}\r\n"), "void main() {}\r\n");
    assert_eq!(clean("// #version 120\nx"), "// #version 120\nx");
    assert_eq!(clean(""), "");
    assert_eq!(clean("#versio"), "#versio");
}

#[test]
fn source_is_cleaned_as_the_standard_library_would() {
    for source in [
        "",
        "\n",
        "#version",
        "#version 330\n",
        "#version 330\n\n",
        "#version 330\n\n\n",
        "#version 330\r\n\r\n",
        "#version 330\na\r",
        "#version 330\na\r\r\nb",
        "#version 330\n\r",
        "#version 330\n\r\n",
        "#version 330\n\r\r\n\n",
        "\n\n #version 330\nfirst\nsecond\n",
        "\u{3000}\t#version 1\r\nx\ny\r\n",
        "x #version 330\ny",
        "#Version 330\ny\n",
        "#version 330 core\nuniform float t;\r\nvoid main() {\r\n}\r\n",
    ] {
        assert_eq!(clean(source), by_the_standard_library(source), "{:?}", source);
    }
}

#[test]
fn each_stage_gets_its_two_lines() {
    let (vertex, fragment) = shader_sources("#version 120\nvoid main() {}\n");
    let vertex: String = vertex.into_iter().collect();
    let fragment: String = fragment.into_iter().collect();
    assert_eq!(vertex, "#version 330 core\n#define VERTEX\nvoid main() {}");
    assert_eq!(fragment, "#version 330 core\n#define FRAGMENT\nvoid main() {}");
    let (vertex, _) = shader_sources("x");
    assert_eq!(vertex.into_iter().collect::<String>(), "#version 330 core\n#define VERTEX\nx");
}
