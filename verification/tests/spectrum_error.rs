use audiotools::spectrum::{ResultExt, SpectrumError};

#[test]
fn test_error_creation() {
    let err = SpectrumError::new("test error");
    assert_eq!(err.message(), "test error");
}

#[test]
fn test_error_with_context() {
    let err = SpectrumError::new("base error").context("additional context");
    assert!(err.message().contains("additional context"));
    assert!(err.message().contains("base error"));
}

#[test]
fn test_io_error_conversion() {
    let io_err = std::io::Error::new(std::io::ErrorKind::NotFound, "file not found");
    let spectrum_err: SpectrumError = io_err.into();
    assert!(spectrum_err.message().contains("not found"));
}

#[test]
fn test_result_extension() {
    fn failing_function() -> Result<(), std::io::Error> {
        Err(std::io::Error::new(
            std::io::ErrorKind::PermissionDenied,
            "denied",
        ))
    }

    let result = failing_function().context("while processing file");
    assert!(result.is_err());
    let err = result.unwrap_err();
    assert!(err.message().contains("while processing file"));
}

#[test]
fn test_hound_error_conversion() {
    fn test_from_impl() -> Result<(), SpectrumError> {
        Ok(())
    }

    assert!(test_from_impl().is_ok());
}

#[test]
fn context_text_is_context_colon_source() {
    let err = SpectrumError::new("base").context("outer");
    assert_eq!(err.message(), "outer: base");
    let nested = err.context("top");
    assert_eq!(nested.message(), "top: outer: base");
}

#[test]
fn hound_error_converts_and_keeps_its_text() {
    let err: SpectrumError = hound::Error::Unsupported.into();
    assert!(matches!(err, SpectrumError::Hound(_)));
    assert_eq!(err.message(), "The wave format of the file is not supported.");
}

#[test]
fn context_on_ok_keeps_the_value() {
    let ok: Result<u32, std::io::Error> = Ok(7);
    assert_eq!(ok.context("unused").unwrap(), 7);
}

#[test]
fn context_wraps_io_error_text() {
    let r: Result<(), std::io::Error> = Err(std::io::Error::new(std::io::ErrorKind::Other, "disk gone"));
    let err = r.context("saving").unwrap_err();
    assert_eq!(err.message(), "saving: disk gone");
}
