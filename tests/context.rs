use essex::{Error, Result, TemplateContext};

#[test]
fn test_template_context_creation() {
    let context = TemplateContext::new(
        "user/project",
        Some("dockeruser".to_string()),
        Some("MyCompany".to_string()),
    )
    .unwrap();

    assert_eq!(context.repo_namespace, "user");
    assert_eq!(context.repo_username, "dockeruser");
    assert_eq!(context.image_name, "project");
    assert_eq!(context.vendor, "MyCompany");
}

#[test]
fn test_invalid_project_name() {
    let result = TemplateContext::new("invalid", None, None);
    assert!(result.is_err());
}

#[test]
fn test_template_context_validation() -> Result<()> {
    // Test valid project name
    let ctx = TemplateContext::new("namespace/project", None, None)?;
    assert_eq!(ctx.repo_namespace, "namespace");
    assert_eq!(ctx.image_name, "project");
    assert_eq!(ctx.repo_username, "example");
    assert_eq!(ctx.vendor, "Example Corp");

    // Test custom username and vendor
    let ctx = TemplateContext::new(
        "custom/project",
        Some("user123".to_string()),
        Some("Custom Inc".to_string()),
    )?;
    assert_eq!(ctx.repo_username, "user123");
    assert_eq!(ctx.vendor, "Custom Inc");

    // Test invalid project names
    assert!(TemplateContext::new("invalid", None, None).is_err());
    assert!(TemplateContext::new("/project", None, None).is_err());
    assert!(TemplateContext::new("namespace/", None, None).is_err());
    assert!(TemplateContext::new("name space/project", None, None).is_err());
    assert!(TemplateContext::new("namespace/pro ject", None, None).is_err());
    assert!(TemplateContext::new("namespace/project!", None, None).is_err());

    Ok(())
}

#[test]
fn test_template_context_into_context() -> Result<()> {
    let ctx = TemplateContext::new("namespace/project", None, None)?;
    let tera_ctx = ctx.clone().into_context();

    // Verify all fields are properly inserted into the Tera context
    assert_eq!(
        tera_ctx.get("repo_username").unwrap().as_str().unwrap(),
        ctx.repo_username
    );
    assert_eq!(
        tera_ctx.get("repo_namespace").unwrap().as_str().unwrap(),
        ctx.repo_namespace
    );
    assert_eq!(
        tera_ctx.get("image_name").unwrap().as_str().unwrap(),
        ctx.image_name
    );
    assert_eq!(tera_ctx.get("vendor").unwrap().as_str().unwrap(), ctx.vendor);
    assert_eq!(
        tera_ctx.get("version").unwrap().as_str().unwrap(),
        ctx.version
    );
    assert_eq!(
        tera_ctx.get("build_date").unwrap().as_str().unwrap(),
        ctx.build_date
    );
    assert_eq!(
        tera_ctx.get("vcs_ref").unwrap().as_str().unwrap(),
        ctx.vcs_ref
    );

    Ok(())
}

#[test]
fn test_template_context_edge_cases() {
    // Test empty project name
    assert!(TemplateContext::new("", None, None).is_err());

    // Test very long inputs
    let long_string = "a".repeat(256);
    assert!(TemplateContext::new(&long_string, None, None).is_err());

    // Test special characters
    assert!(TemplateContext::new("project#name", None, None).is_err());

    // Test missing namespace separator
    assert!(TemplateContext::new("projectname", None, None).is_err());

    // Test empty namespace
    assert!(TemplateContext::new("/projectname", None, None).is_err());

    // Test empty name
    assert!(TemplateContext::new("namespace/", None, None).is_err());

    // Test multiple separators
    assert!(TemplateContext::new("namespace/project/name", None, None).is_err());
}

#[test]
fn valid_identifiers_split_into_their_segments() {
    for (ns, name) in [("acme", "widget"), ("A-b_9", "x"), ("Ünïcode", "名前"), ("__", "--")] {
        let id = format!("{}/{}", ns, name);
        let ctx = TemplateContext::new(&id, None, None).unwrap();
        assert_eq!(ctx.repo_namespace, ns);
        assert_eq!(ctx.image_name, name);
    }
}

#[test]
fn malformed_identifiers_are_rejected_with_the_identifier() {
    for id in ["", "/", "a//b", "a/b/", "//", "a b/c", "a/b.c", "a/b\u{2014}", "ns/na\tme"] {
        match TemplateContext::new(id, None, None) {
            Err(Error::InvalidProjectName(p)) => assert_eq!(p, id),
            other => panic!("{:?} gave {:?}", id, other),
        }
    }
}

#[test]
fn fixed_fields_and_given_build_date() {
    let ctx = TemplateContext::with_build_date("ns/name", None, Some("V".to_string()), "2024-01-02T03:04:05Z".to_string()).unwrap();
    assert_eq!(ctx.version, "0.1.0");
    assert_eq!(ctx.vcs_ref, "HEAD");
    assert_eq!(ctx.vendor, "V");
    assert_eq!(ctx.repo_username, "example");
    assert_eq!(ctx.build_date, "2024-01-02T03:04:05Z");
}

#[test]
fn build_date_is_an_iso_utc_timestamp() {
    let ctx = TemplateContext::new("ns/name", None, None).unwrap();
    let d: Vec<char> = ctx.build_date.chars().collect();
    assert_eq!(d.len(), 20);
    assert_eq!(d[4], '-');
    assert_eq!(d[7], '-');
    assert_eq!(d[10], 'T');
    assert_eq!(d[13], ':');
    assert_eq!(d[16], ':');
    assert_eq!(d[19], 'Z');
}

#[test]
fn context_holds_only_the_seven_variables() {
    let ctx = TemplateContext::new("ns/name", None, None).unwrap();
    let json = ctx.into_context().into_json();
    let object = json.as_object().unwrap();
    assert_eq!(object.len(), 7);
    for key in ["repo_username", "repo_namespace", "image_name", "vendor", "build_date", "version", "vcs_ref"] {
        assert!(object[key].is_string(), "{}", key);
    }
}
