use vstd::prelude::*;

verus! {

/// The ways a generation run can fail inside the library.
#[derive(Clone, Debug, PartialEq, Eq)]
pub enum GenerationError {
    /// The budget, the top-k width or the candidate set is degenerate.
    InvalidConfiguration,
    /// The prompt gives nothing to generate from.
    InvalidInput,
    /// The codec could not turn the prompt into token ids; the codec's message.
    EncodingError(String),
    /// The codec could not turn token ids into text; the codec's message.
    DecodingError(String),
}

} // verus!
