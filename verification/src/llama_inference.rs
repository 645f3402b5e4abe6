//! The Llama inference engine: a model file and its name; loading checks
//! that the file exists, and inference gives a placeholder answer that
//! reports what it was asked.
use vstd::prelude::*;
use vstd::string::*;
use crate::text::append_decimal;

verus! {

/// Whether a path names an existing file or directory.
///
/// Trusted: calls `std::path::Path::exists`. The answer depends on the file
/// system, so nothing is stated of it.
#[verifier::external_body]
fn path_exists(path: &str) -> bool {
    std::path::Path::new(path).exists()
}

/// The engine of one model file.
#[derive(Debug)]
pub struct LlamaInferenceEngine {
    model_path: String,
    model_name: String,
    loaded: bool,
}

/// The placeholder answer to an input: the model, the input's length in
/// bytes, the tokens it would generate (the limit, at most a quarter of
/// that length), the temperature as given, and the input's first 200
/// characters.
pub open spec fn infer_output_spec(
    model_name: Seq<char>,
    input: &str,
    max_tokens: usize,
    temperature_text: Seq<char>,
) -> Seq<char> {
    let quarter = input.len() / 4;
    let tokens = if max_tokens < quarter {
        max_tokens
    } else {
        quarter
    };
    let shown = if input@.len() <= 200 {
        input@
    } else {
        input@.subrange(0, 200)
    };
    "[Llama-"@ + model_name + " inference: processed "@ + crate::text::decimal(input.len() as nat)
        + " chars, generated "@ + crate::text::decimal(tokens as nat) + " tokens, temp="@ + temperature_text + "] "@
        + shown
}

impl LlamaInferenceEngine {
    pub closed spec fn spec_model_path(&self) -> Seq<char> {
        self.model_path@
    }

    pub closed spec fn spec_model_name(&self) -> Seq<char> {
        self.model_name@
    }

    /// Whether the last load of the model succeeded.
    pub closed spec fn spec_loaded(&self) -> bool {
        self.loaded
    }

    /// An engine for the model file at `model_path`, named `model_name`.
    pub fn new(model_path: &str, model_name: &str) -> (r: LlamaInferenceEngine)
        ensures
            r.spec_model_path() == model_path@,
            r.spec_model_name() == model_name@,
            !r.spec_loaded(),
    {
        LlamaInferenceEngine {
            model_path: String::from_str(model_path),
            model_name: String::from_str(model_name),
            loaded: false,
        }
    }

    /// The model's name.
    pub fn model_name(&self) -> (r: &str)
        ensures
            r@ == self.spec_model_name(),
    {
        self.model_name.as_str()
    }

    /// The model file's path.
    pub fn model_path(&self) -> (r: &str)
        ensures
            r@ == self.spec_model_path(),
    {
        self.model_path.as_str()
    }

    /// Loading, given whether the model file exists: an error when it does
    /// not.
    pub fn load_model_at(&self, file_exists: bool) -> (r: Result<(), String>)
        ensures
            file_exists ==> r is Ok,
            !file_exists ==> (r matches Err(e) && e@ == "Model file not found: "@ + self.spec_model_path()),
    {
        if !file_exists {
            let mut e = String::from_str("Model file not found: ");
            e.append(self.model_path.as_str());
            return Err(e);
        }
        Ok(())
    }

    /// Loads the model: an error when its file does not exist. The engine
    /// is loaded exactly when this succeeded.
    pub fn load_model(&mut self) -> (r: Result<(), String>)
        ensures
            final(self).spec_model_path() == old(self).spec_model_path(),
            final(self).spec_model_name() == old(self).spec_model_name(),
            final(self).spec_loaded() == (r is Ok),
            r is Ok || (r matches Err(e) && e@ == "Model file not found: "@ + old(self).spec_model_path()),
    {
        let exists = path_exists(self.model_path.as_str());
        let r = self.load_model_at(exists);
        self.loaded = r.is_ok();
        r
    }

    /// Whether the model was loaded: the last `load_model` succeeded.
    pub fn is_loaded(&self) -> (r: bool)
        ensures
            r == self.spec_loaded(),
    {
        self.loaded
    }

    /// Runs inference on `input` with a token limit and a temperature (as
    /// its text): the placeholder answer.
    pub fn infer(&self, input: &str, max_tokens: usize, temperature_text: &str) -> (r: Result<String, String>)
        ensures
            r matches Ok(s) && s@ == infer_output_spec(self.spec_model_name(), input, max_tokens, temperature_text@),
    {
        let len = input.len();
        let quarter = len / 4;
        let tokens = if max_tokens < quarter {
            max_tokens
        } else {
            quarter
        };
        let mut s = String::from_str("[Llama-");
        s.append(self.model_name.as_str());
        s.append(" inference: processed ");
        append_decimal(&mut s, len as u128);
        s.append(" chars, generated ");
        append_decimal(&mut s, tokens as u128);
        s.append(" tokens, temp=");
        s.append(temperature_text);
        s.append("] ");
        let n = input.unicode_len();
        let shown = if n <= 200 {
            input
        } else {
            input.substring_char(0, 200)
        };
        s.append(shown);
        proof {
            if n <= 200 {
                assert(shown@ =~= input@);
            }
        }
        Ok(s)
    }
}

/// Creates an engine for a model file and loads it.
pub fn create_inference_engine(model_path: &str, model_name: &str) -> (r: Result<LlamaInferenceEngine, String>)
    ensures
        match r {
            Ok(e) => e.spec_model_path() == model_path@ && e.spec_model_name() == model_name@ && e.spec_loaded(),
            Err(e) => e@ == "Model file not found: "@ + model_path@,
        },
{
    let mut engine = LlamaInferenceEngine::new(model_path, model_name);
    match engine.load_model() {
        Ok(()) => Ok(engine),
        Err(e) => Err(e),
    }
}

} // verus!
