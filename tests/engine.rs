use essex::template::{
    file_output, holds_markup, join_outcomes, shell_script, Batch, FileUnit, Step, TemplateDir, TemplateEntry,
    TemplateFile,
};
use essex::{Error, TemplateContext, TemplateEngine};

fn file(name: &str, text: &str) -> TemplateEntry {
    TemplateEntry::File(TemplateFile { name: name.to_string(), contents: text.as_bytes().to_vec() })
}

fn dir(name: &str, entries: Vec<TemplateEntry>) -> TemplateEntry {
    TemplateEntry::Dir(TemplateDir { name: name.to_string(), entries })
}

fn basic_template() -> TemplateEntry {
    dir(
        "basic",
        vec![
            file(
                "Dockerfile",
                "ARG BASE_IMAGE=alpine:3.21\nFROM ${BASE_IMAGE}\nLABEL vendor=\"{{vendor}}\"\nLABEL org.opencontainers.image.authors=\"{{ repo_username }} <contact@example.com>\"\n",
            ),
            file("Makefile", "REPO_NAMESPACE        ?= {{ repo_namespace }}\nIMAGE_NAME            ?= {{ image_name }}\n"),
            file("README.md", "# Plain readme, no placeholders.\n"),
            dir("bin", vec![file("entrypoint.sh", "#!/bin/sh\nexec \"$@\"\n")]),
            dir(
                "runtime-assets",
                vec![dir("usr", vec![dir("local", vec![dir("bin", vec![file("entrypoint.sh", "#!/bin/sh\n")])])])],
            ),
        ],
    )
}

fn engine() -> TemplateEngine {
    TemplateEngine::new(TemplateDir {
        name: String::new(),
        entries: vec![basic_template(), file("NOTES.txt", "not a template"), dir("empty", vec![])],
    })
    .unwrap()
}

fn render_file(unit: &FileUnit, vars: &tera::Context) -> Result<String, Error> {
    let outcome = tera::Tera::one_off(&unit.text, vars, false).map_err(|e| e.to_string());
    file_output(unit, outcome)
}

fn unit_named<'a>(steps: &'a [Step], path: &str) -> &'a FileUnit {
    steps
        .iter()
        .find_map(|s| match s {
            Step::WriteFile(u) if u.path == path => Some(u),
            _ => None,
        })
        .unwrap_or_else(|| panic!("no file {}", path))
}

#[test]
fn test_template_not_found() {
    let engine = engine();
    let templates = engine.list_templates().unwrap();
    assert!(!templates.contains(&"non_existent".to_string()));
}

#[test]
fn test_template_engine_empty_dir() {
    let engine = engine();
    let templates = engine.list_templates().unwrap();
    assert!(!templates.is_empty(), "Should list built-in templates");
}

#[test]
fn test_template_engine_invalid_template() {
    let engine = engine();
    let result = engine.generate("non-existent");
    assert!(result.is_err());
    if let Err(Error::TemplateNotFound(name)) = result {
        assert_eq!(name, "non-existent");
    } else {
        panic!("Expected TemplateNotFound error");
    }
}

#[test]
fn lists_only_directories_in_catalog_order() {
    let engine = engine();
    assert_eq!(engine.list_templates().unwrap(), vec!["basic".to_string(), "empty".to_string()]);
    assert_eq!(engine.list_templates().unwrap(), engine.list_templates().unwrap());
}

#[test]
fn unknown_template_gives_no_steps_in_either_variant() {
    let engine = engine();
    assert!(matches!(engine.generate("NOTES.txt"), Err(Error::TemplateNotFound(n)) if n == "NOTES.txt"));
    assert!(matches!(engine.generate_async("nope"), Err(Error::TemplateNotFound(n)) if n == "nope"));
}

#[test]
fn plan_walks_depth_first_with_root_first() {
    let steps = engine().generate("basic").unwrap();
    let shape: Vec<String> = steps
        .iter()
        .map(|s| match s {
            Step::CreateDir(p) => format!("d:{}", p),
            Step::WriteFile(u) => format!("f:{}", u.path),
        })
        .collect();
    assert_eq!(
        shape,
        vec![
            "d:",
            "f:Dockerfile",
            "f:Makefile",
            "f:README.md",
            "d:bin",
            "f:bin/entrypoint.sh",
            "d:runtime-assets",
            "d:runtime-assets/usr",
            "d:runtime-assets/usr/local",
            "d:runtime-assets/usr/local/bin",
            "f:runtime-assets/usr/local/bin/entrypoint.sh",
        ]
    );
}

#[test]
fn empty_template_only_creates_the_root() {
    let steps = engine().generate("empty").unwrap();
    assert_eq!(steps.len(), 1);
    assert!(matches!(&steps[0], Step::CreateDir(p) if p.is_empty()));
}

#[test]
fn dockerfile_vendor_line_is_substituted() {
    let engine = engine();
    let ctx = TemplateContext::new("acme/widget", None, Some("Acme Corp".to_string())).unwrap();
    let vars = ctx.into_context();
    let steps = engine.generate("basic").unwrap();
    let out = render_file(unit_named(&steps, "Dockerfile"), &vars).unwrap();
    assert!(out.lines().any(|l| l == "LABEL vendor=\"Acme Corp\""));
    assert!(out.contains("org.opencontainers.image.authors=\"example <contact@example.com>\""));
    assert!(out.contains("FROM ${BASE_IMAGE}"));
}

#[test]
fn makefile_variables_are_substituted() {
    let engine = engine();
    let ctx = TemplateContext::new("myorg/myproject", Some("testuser".to_string()), None).unwrap();
    let vars = ctx.into_context();
    let steps = engine.generate("basic").unwrap();
    let out = render_file(unit_named(&steps, "Makefile"), &vars).unwrap();
    assert!(out.contains("REPO_NAMESPACE        ?= myorg"));
    assert!(out.contains("IMAGE_NAME            ?= myproject"));
}

#[test]
fn shell_scripts_are_marked_executable() {
    let steps = engine().generate("basic").unwrap();
    assert!(unit_named(&steps, "bin/entrypoint.sh").executable);
    assert!(unit_named(&steps, "runtime-assets/usr/local/bin/entrypoint.sh").executable);
    assert!(!unit_named(&steps, "Dockerfile").executable);
    assert!(!unit_named(&steps, "README.md").executable);
}

#[test]
fn shell_extension_needs_a_stem() {
    assert!(shell_script(&"a.sh".to_string()));
    assert!(shell_script(&"x.tar.sh".to_string()));
    assert!(!shell_script(&".sh".to_string()));
    assert!(!shell_script(&"sh".to_string()));
    assert!(!shell_script(&"a.shx".to_string()));
    assert!(!shell_script(&"a.bash".to_string()));
}

#[test]
fn literal_text_renders_unchanged() {
    let vars = TemplateContext::new("a/b", None, None).unwrap().into_context();
    let steps = engine().generate("basic").unwrap();
    let readme = unit_named(&steps, "README.md");
    let out = render_file(readme, &vars).unwrap();
    assert_eq!(out.as_bytes(), b"# Plain readme, no placeholders.\n");
    let unit = FileUnit { path: "x".to_string(), text: "tabs\tand\r\nnewlines } ] ${X}\n\n".to_string(), executable: false };
    assert_eq!(render_file(&unit, &vars).unwrap(), unit.text);
}

#[test]
fn text_without_markup_is_kept_whatever_the_outcome() {
    let unit = FileUnit { path: "x".to_string(), text: "FROM ${BASE_IMAGE} { } %} #}".to_string(), executable: false };
    assert_eq!(file_output(&unit, Err("boom".to_string())).unwrap(), unit.text);
    assert_eq!(file_output(&unit, Ok("other".to_string())).unwrap(), unit.text);
    let unit = FileUnit { path: "x".to_string(), text: "a {{ b }}".to_string(), executable: false };
    assert_eq!(file_output(&unit, Ok("a c".to_string())).unwrap(), "a c");
    assert!(matches!(file_output(&unit, Err("bad".to_string())), Err(Error::TemplateError(m)) if m == "bad"));
}

#[test]
fn markup_is_any_of_three_openers() {
    assert!(holds_markup("x {{ y }}"));
    assert!(holds_markup("{% if a %}"));
    assert!(holds_markup("{#"));
    assert!(!holds_markup("${X} { {"));
    assert!(!holds_markup("{"));
    assert!(!holds_markup(""));
}

#[test]
fn unresolved_placeholder_is_a_template_error() {
    let vars = TemplateContext::new("a/b", None, None).unwrap().into_context();
    let unit = FileUnit { path: "x".to_string(), text: "{{ no_such_variable }}".to_string(), executable: false };
    assert!(matches!(render_file(&unit, &vars), Err(Error::TemplateError(_))));
    let unit = FileUnit { path: "x".to_string(), text: "{% if %}".to_string(), executable: false };
    assert!(matches!(render_file(&unit, &vars), Err(Error::TemplateError(_))));
}

#[test]
fn non_utf8_file_is_an_invalid_template() {
    let bad = TemplateEntry::File(TemplateFile { name: "blob.bin".to_string(), contents: vec![0x66, 0xff, 0xfe] });
    let engine = TemplateEngine::new(TemplateDir {
        name: String::new(),
        entries: vec![dir("broken", vec![file("ok.txt", "fine"), dir("sub", vec![bad])])],
    })
    .unwrap();
    match engine.generate("broken") {
        Err(Error::InvalidTemplate(m)) => {
            assert_eq!(m, "Template file is not valid UTF-8: sub/blob.bin")
        }
        other => panic!("unexpected {:?}", other),
    }
    assert!(matches!(engine.generate_async("broken"), Err(Error::InvalidTemplate(_))));
}

#[test]
fn non_ascii_text_is_decoded() {
    let engine = TemplateEngine::new(TemplateDir {
        name: String::new(),
        entries: vec![dir("t", vec![file("a.txt", "héllo wörld ✓")])],
    })
    .unwrap();
    let steps = engine.generate("t").unwrap();
    assert_eq!(unit_named(&steps, "a.txt").text, "héllo wörld ✓");
}

#[test]
fn concurrent_variant_matches_sequential_steps() {
    let engine = engine();
    let steps = engine.generate("basic").unwrap();
    let Batch { dirs, files } = engine.generate_async("basic").unwrap();
    let seq_dirs: Vec<String> = steps
        .iter()
        .filter_map(|s| match s {
            Step::CreateDir(p) => Some(p.clone()),
            _ => None,
        })
        .collect();
    let seq_files: Vec<(String, String, bool)> = steps
        .iter()
        .filter_map(|s| match s {
            Step::WriteFile(u) => Some((u.path.clone(), u.text.clone(), u.executable)),
            _ => None,
        })
        .collect();
    let batch_files: Vec<(String, String, bool)> =
        files.iter().map(|u| (u.path.clone(), u.text.clone(), u.executable)).collect();
    assert_eq!(dirs, seq_dirs);
    assert_eq!(batch_files, seq_files);
    assert_eq!(files.len(), 5);
}

#[test]
fn join_reports_first_failure_after_all_units() {
    assert!(join_outcomes(vec![]).is_ok());
    assert!(join_outcomes(vec![Ok(()), Ok(()), Ok(())]).is_ok());
    let outcomes = vec![
        Ok(()),
        Err(Error::IoError(std::io::Error::new(std::io::ErrorKind::Other, "disk full"))),
        Ok(()),
    ];
    assert!(matches!(join_outcomes(outcomes), Err(Error::IoError(_))));
    let outcomes = vec![
        Ok(()),
        Err(Error::TaskFailure("first".to_string())),
        Err(Error::TemplateError("second".to_string())),
    ];
    assert!(matches!(join_outcomes(outcomes), Err(Error::TaskFailure(m)) if m == "first"));
}
