use vstd::prelude::*;

use crate::error::GenerationError;
use tokenizers::Tokenizer;

verus! {

/// The tokenizer that maps prompt text to token ids and token ids back to text.
#[verifier::external_type_specification]
#[verifier::external_body]
pub struct ExTokenizer(Tokenizer);

/// Relies on tokenizers::Tokenizer::encode, called without special tokens, for the
/// ids of the encoding; its failure becomes the error's message. What the ids are
/// depends on the tokenizer's vocabulary, so nothing is stated of them.
#[verifier::external_body]
pub(crate) fn encode_ids(codec: &Tokenizer, text: &str) -> (r: Result<Vec<u32>, String>) {
    match codec.encode(text, false) {
        Ok(encoding) => Ok(encoding.get_ids().to_vec()),
        Err(e) => Err(e.to_string()),
    }
}

/// Relies on tokenizers::Tokenizer::decode, skipping special tokens, for the text of
/// a run of ids; its failure becomes the error's message. The text depends on the
/// tokenizer's vocabulary, so nothing is stated of it.
#[verifier::external_body]
pub(crate) fn decode_ids(codec: &Tokenizer, ids: &Vec<u32>) -> (r: Result<String, String>) {
    match codec.decode(ids, true) {
        Ok(text) => Ok(text),
        Err(e) => Err(e.to_string()),
    }
}

/// Turns what the codec made of a prompt into the seed of a run: a failed encoding
/// is an encoding error that carries the codec's message, and an empty one leaves
/// nothing to generate from.
pub fn seed_from_encoding(encoded: Result<Vec<u32>, String>) -> (res: Result<
    Vec<u32>,
    GenerationError,
>)
    ensures
        encoded matches Err(msg) ==> res == Err::<Vec<u32>, GenerationError>(
            GenerationError::EncodingError(msg),
        ),
        encoded matches Ok(ids) ==> (ids@.len() == 0 ==> res == Err::<Vec<u32>, GenerationError>(
            GenerationError::InvalidInput,
        )),
        encoded matches Ok(ids) ==> (ids@.len() > 0 ==> (res matches Ok(v) && v@ == ids@)),
{
    match encoded {
        Err(msg) => Err(GenerationError::EncodingError(msg)),
        Ok(ids) => {
            if ids.len() == 0 {
                Err(GenerationError::InvalidInput)
            } else {
                Ok(ids)
            }
        },
    }
}

/// Encodes a prompt into the non-empty token sequence that a run starts from.
/// An empty prompt is refused before the codec is asked.
pub fn seed(prompt: &str, codec: &Tokenizer) -> (res: Result<Vec<u32>, GenerationError>)
    ensures
        prompt@.len() == 0 ==> res == Err::<Vec<u32>, GenerationError>(GenerationError::InvalidInput),
        res matches Ok(v) ==> v@.len() > 0,
        res matches Err(e) ==> (e == GenerationError::InvalidInput || e is EncodingError),
{
    if prompt.is_empty() {
        return Err(GenerationError::InvalidInput);
    }
    seed_from_encoding(encode_ids(codec, prompt))
}

} // verus!
