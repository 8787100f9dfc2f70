use syntaxdot_ffi::error::AnnotatorError;

/// Every category maps to its stable numeric code, and the codes never
/// overlap, so a foreign caller can dispatch on the code alone.
#[test]
fn codes_are_stable_and_distinct() {
    let errors = vec![
        (AnnotatorError::ModelConstruction("boom".to_string()), 1),
        (AnnotatorError::Io("ctx".to_string(), "gone".to_string()), 2),
        (AnnotatorError::EncoderLoad("labels.yaml".to_string(), "bad".to_string()), 3),
        (AnnotatorError::ParameterLoad("missing tensor".to_string()), 4),
        (AnnotatorError::ExternalOpaque("inner".to_string()), 5),
        (AnnotatorError::Codec("truncated".to_string()), 6),
        (AnnotatorError::InvalidArgument("zero".to_string()), 7),
        (AnnotatorError::InvalidHandle, -1000),
    ];
    let mut seen: Vec<i32> = Vec::new();
    for (error, expected) in errors {
        let code = error.code();
        assert_eq!(code, expected);
        assert!(!seen.contains(&code));
        seen.push(code);
    }
}

/// Each error renders a human-readable message built from what it carries.
#[test]
fn messages_carry_the_diagnostics() {
    assert_eq!(
        AnnotatorError::ModelConstruction("shape mismatch".to_string()).message(),
        "Cannot construct BERT model: shape mismatch"
    );
    assert_eq!(
        AnnotatorError::Io("Cannot open syntaxdot config file `x.conf`".to_string(), "not found".to_string())
            .message(),
        "Cannot open syntaxdot config file `x.conf`: not found"
    );
    assert_eq!(
        AnnotatorError::EncoderLoad("labels.yaml".to_string(), "eof".to_string()).message(),
        "Cannot deserialize encoders from `labels.yaml`: eof"
    );
    assert_eq!(
        AnnotatorError::ParameterLoad("tensor".to_string()).message(),
        "Cannot load model parameters: tensor"
    );
    assert_eq!(
        AnnotatorError::Codec("bad varint".to_string()).message(),
        "Cannot decode protobuf: bad varint"
    );
    assert_eq!(
        AnnotatorError::ExternalOpaque("passed through".to_string()).message(),
        "passed through"
    );
    assert_eq!(AnnotatorError::InvalidHandle.message(), "Invalid handle");
    assert_eq!(
        AnnotatorError::InvalidArgument("batch size must be at least one".to_string()).message(),
        "batch size must be at least one"
    );
}
