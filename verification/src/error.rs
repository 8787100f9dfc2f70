//! The error surface: a closed taxonomy of failure categories, each mapped to
//! a stable numeric code and a human-readable message. Every fallible boundary
//! operation reports exactly one category, so a caller can dispatch on the
//! code alone.

use vstd::prelude::*;

verus! {

/// A failure category crossing the boundary. Each variant carries the text
/// needed for a diagnostic message; none of them ever unwinds across the
/// boundary.
#[derive(Debug)]
pub enum AnnotatorError {
    /// The neural model could not be constructed.
    ModelConstruction(String),
    /// An I/O failure: a contextual description and the underlying error text.
    Io(String, String),
    /// The encoder/label set could not be deserialized: source and error text.
    EncoderLoad(String, String),
    /// The model parameters could not be loaded.
    ParameterLoad(String),
    /// Malformed wire input or structurally inconsistent dependency data.
    Codec(String),
    /// A failure of an external library, passed through without
    /// re-interpretation.
    ExternalOpaque(String),
    /// The handle was never minted, or was already destroyed.
    InvalidHandle,
    /// A caller-supplied argument violates the contract, such as a batch size
    /// of zero.
    InvalidArgument(String),
}

/// Relies on `String::push_str` of std: appends the characters of `t` to `s`.
#[verifier::external_body]
fn append_str(s: &mut String, t: &str)
    ensures
        final(s)@ == old(s)@ + t@,
{
    s.push_str(t);
}

impl AnnotatorError {
    /// The stable numeric code of each category. Codes never change between
    /// releases, so foreign callers may dispatch on them.
    pub open spec fn spec_code(&self) -> i32 {
        match self {
            AnnotatorError::ModelConstruction(_) => 1,
            AnnotatorError::Io(_, _) => 2,
            AnnotatorError::EncoderLoad(_, _) => 3,
            AnnotatorError::ParameterLoad(_) => 4,
            AnnotatorError::ExternalOpaque(_) => 5,
            AnnotatorError::Codec(_) => 6,
            AnnotatorError::InvalidArgument(_) => 7,
            AnnotatorError::InvalidHandle => -1000i32,
        }
    }

    /// The stable numeric code for this error.
    #[verifier::when_used_as_spec(spec_code)]
    pub fn code(&self) -> (c: i32)
        ensures
            c == self.spec_code(),
    {
        match self {
            AnnotatorError::ModelConstruction(_) => 1,
            AnnotatorError::Io(_, _) => 2,
            AnnotatorError::EncoderLoad(_, _) => 3,
            AnnotatorError::ParameterLoad(_) => 4,
            AnnotatorError::ExternalOpaque(_) => 5,
            AnnotatorError::Codec(_) => 6,
            AnnotatorError::InvalidArgument(_) => 7,
            AnnotatorError::InvalidHandle => -1000i32,
        }
    }

    /// The human-readable message for this error, built from the carried text.
    pub fn message(&self) -> (m: String)
        ensures
            self matches AnnotatorError::ModelConstruction(e) ==> m@ == "Cannot construct BERT model: "@ + e@,
            self matches AnnotatorError::Io(ctx, e) ==> m@ == ctx@ + ": "@ + e@,
            self matches AnnotatorError::EncoderLoad(src, e) ==> m@ == "Cannot deserialize encoders from `"@ + src@ + "`: "@ + e@,
            self matches AnnotatorError::ParameterLoad(e) ==> m@ == "Cannot load model parameters: "@ + e@,
            self matches AnnotatorError::Codec(e) ==> m@ == "Cannot decode protobuf: "@ + e@,
            self matches AnnotatorError::ExternalOpaque(e) ==> m@ == e@,
            self matches AnnotatorError::InvalidHandle ==> m@ == "Invalid handle"@,
            self matches AnnotatorError::InvalidArgument(e) ==> m@ == e@,
    {
        let mut m = String::new();
        match self {
            AnnotatorError::ModelConstruction(e) => {
                append_str(&mut m, "Cannot construct BERT model: ");
                append_str(&mut m, e.as_str());
                proof {
                    assert(m@ =~= "Cannot construct BERT model: "@ + e@);
                }
            },
            AnnotatorError::Io(ctx, e) => {
                append_str(&mut m, ctx.as_str());
                append_str(&mut m, ": ");
                append_str(&mut m, e.as_str());
                proof {
                    assert(m@ =~= ctx@ + ": "@ + e@);
                }
            },
            AnnotatorError::EncoderLoad(src, e) => {
                append_str(&mut m, "Cannot deserialize encoders from `");
                append_str(&mut m, src.as_str());
                append_str(&mut m, "`: ");
                append_str(&mut m, e.as_str());
                proof {
                    assert(m@ =~= "Cannot deserialize encoders from `"@ + src@ + "`: "@ + e@);
                }
            },
            AnnotatorError::ParameterLoad(e) => {
                append_str(&mut m, "Cannot load model parameters: ");
                append_str(&mut m, e.as_str());
                proof {
                    assert(m@ =~= "Cannot load model parameters: "@ + e@);
                }
            },
            AnnotatorError::Codec(e) => {
                append_str(&mut m, "Cannot decode protobuf: ");
                append_str(&mut m, e.as_str());
                proof {
                    assert(m@ =~= "Cannot decode protobuf: "@ + e@);
                }
            },
            AnnotatorError::ExternalOpaque(e) => {
                append_str(&mut m, e.as_str());
                proof {
                    assert(m@ =~= e@);
                }
            },
            AnnotatorError::InvalidHandle => {
                append_str(&mut m, "Invalid handle");
                proof {
                    assert(m@ =~= "Invalid handle"@);
                }
            },
            AnnotatorError::InvalidArgument(e) => {
                append_str(&mut m, e.as_str());
                proof {
                    assert(m@ =~= e@);
                }
            },
        }
        m
    }
}

} // verus!
