//! The request that carries an encoded recording to the transcription
//! service.

use crate::config::{bearer, bearer_text};
use vstd::prelude::*;
use vstd::string::*;

verus! {

/// A multipart upload: one file part that holds the container, and one text
/// part that names the recognition model.
#[derive(Debug)]
pub struct TranscriptionRequest {
    pub url: String,
    pub authorization: String,
    pub file_field: String,
    pub file_name: String,
    pub mime_type: String,
    pub model_field: String,
    pub model: String,
    pub audio: Vec<u8>,
}

/// The upload for a container: the service's address, the key as a bearer
/// token, the container as a file of type `audio/wav`, and the fixed model.
pub fn transcription_request(api_key: &str, audio: Vec<u8>) -> (request: TranscriptionRequest)
    ensures
        request.url@ == "https://api.openai.com/v1/audio/transcriptions"@,
        request.authorization@ == bearer_text(api_key@),
        request.file_field@ == "file"@,
        request.file_name@ == "audio.wav"@,
        request.mime_type@ == "audio/wav"@,
        request.model_field@ == "model"@,
        request.model@ == "whisper-1"@,
        request.audio == audio,
{
    TranscriptionRequest {
        url: String::from_str("https://api.openai.com/v1/audio/transcriptions"),
        authorization: bearer(api_key),
        file_field: String::from_str("file"),
        file_name: String::from_str("audio.wav"),
        mime_type: String::from_str("audio/wav"),
        model_field: String::from_str("model"),
        model: String::from_str("whisper-1"),
        audio,
    }
}

} // verus!
