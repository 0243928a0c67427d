use essex::Error;

#[test]
fn test_error_display() {
    // Test IoError
    let io_error = std::io::Error::new(std::io::ErrorKind::NotFound, "file not found");
    let error = Error::IoError(io_error);
    assert!(error.to_string().contains("IO error: file not found"));

    // Test TemplateError
    let error = Error::TemplateError("invalid syntax".to_string());
    assert!(error.to_string().contains("Template error: invalid syntax"));

    // Test TemplateNotFound
    let error = Error::TemplateNotFound("basic".to_string());
    assert!(error.to_string().contains("Template not found: basic"));

    // Test InvalidTemplate
    let error = Error::InvalidTemplate("missing field".to_string());
    assert!(error.to_string().contains("Invalid template: missing field"));

    // Test InvalidPath
    let error = Error::InvalidPath("invalid/path".to_string());
    assert!(error.to_string().contains("Invalid path: invalid/path"));

    // Test InvalidProjectName
    let error = Error::InvalidProjectName("invalid name".to_string());
    assert!(error.to_string().contains("Invalid project name: invalid name"));
}

#[test]
fn task_failure_message() {
    let error = Error::TaskFailure("worker panicked".to_string());
    assert_eq!(error.to_string(), "Task failed: worker panicked");
}

#[test]
fn io_error_converts() {
    let io_error = std::io::Error::new(std::io::ErrorKind::NotFound, "file not found");
    let error: Error = io_error.into();
    assert!(matches!(error, Error::IoError(_)));
}
