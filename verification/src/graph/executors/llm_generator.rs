//! LLM generator: the data it exchanges, the prompt it builds from its
//! input, and how it takes code out of the model's answer.
use vstd::prelude::*;
use crate::pattern::{captures, regex_captures};
use crate::text::{append, chars_of, join, join_strings, string_of, to_owned, trim, trimmed, views, TextLike};

verus! {

/// Input to the LLM generator.
#[derive(Debug)]
pub struct GeneratorInput {
    /// The prompt/task for generation.
    pub prompt: String,
    /// Target language.
    pub language: String,
    /// Additional context (e.g., existing code, types).
    pub context: Option<String>,
    /// Errors from previous attempts (for retry).
    pub previous_errors: Vec<String>,
}

impl GeneratorInput {
    /// An input without context or previous errors.
    pub fn new(prompt: impl TextLike, language: impl TextLike) -> (r: Self)
        ensures
            r.prompt@ == prompt.text(),
            r.language@ == language.text(),
            r.context is None,
            r.previous_errors@.len() == 0,
    {
        GeneratorInput {
            prompt: prompt.into_string(),
            language: language.into_string(),
            context: None,
            previous_errors: Vec::new(),
        }
    }

    /// The same input with context.
    pub fn with_context(self, context: impl TextLike) -> (r: Self)
        ensures
            r.prompt == self.prompt,
            r.language == self.language,
            r.context matches Some(c) && c@ == context.text(),
            r.previous_errors@ == self.previous_errors@,
    {
        let mut i = self;
        i.context = Some(context.into_string());
        i
    }

    /// The same input with errors from previous attempts.
    pub fn with_errors(self, errors: Vec<String>) -> (r: Self)
        ensures
            r.prompt == self.prompt,
            r.language == self.language,
            r.context == self.context,
            r.previous_errors@ == errors@,
    {
        let mut i = self;
        i.previous_errors = errors;
        i
    }
}

/// Output from the LLM generator.
#[derive(Debug)]
pub struct GeneratedCode {
    /// The generated code content.
    pub code: String,
    /// Language of the generated code.
    pub language: String,
    /// Original prompt that generated this code.
    pub prompt: String,
    /// Tokens used for generation.
    pub tokens_used: u32,
    /// Whether the output was truncated.
    pub truncated: bool,
    /// Previous errors (if this is a retry).
    pub previous_errors: Vec<String>,
}

impl GeneratedCode {
    /// Generated code without prompt or token count.
    pub fn new(code: impl TextLike, language: impl TextLike) -> (r: Self)
        ensures
            r.code@ == code.text(),
            r.language@ == language.text(),
            r.prompt@ == Seq::<char>::empty(),
            r.tokens_used == 0,
            !r.truncated,
            r.previous_errors@.len() == 0,
    {
        let r = GeneratedCode {
            code: code.into_string(),
            language: language.into_string(),
            prompt: String::new(),
            tokens_used: 0,
            truncated: false,
            previous_errors: Vec::new(),
        };
        r
    }

    /// The same code with the prompt that generated it.
    pub fn with_prompt(self, prompt: impl TextLike) -> (r: Self)
        ensures
            r.code == self.code,
            r.language == self.language,
            r.prompt@ == prompt.text(),
            r.tokens_used == self.tokens_used,
            r.truncated == self.truncated,
            r.previous_errors@ == self.previous_errors@,
    {
        let mut g = self;
        g.prompt = prompt.into_string();
        g
    }

    /// The same code with its token usage.
    pub fn with_tokens(self, tokens: u32) -> (r: Self)
        ensures
            r.code == self.code,
            r.language == self.language,
            r.prompt == self.prompt,
            r.tokens_used == tokens,
            r.truncated == self.truncated,
            r.previous_errors@ == self.previous_errors@,
    {
        let mut g = self;
        g.tokens_used = tokens;
        g
    }
}

/// The pattern of a fenced code block, capturing its body.
pub open spec fn code_block_pattern() -> Seq<char> {
    r"```(?:rust|python|typescript|javascript|go|java)?\n([\s\S]*?)```"@
}

/// The code taken out of a model's answer: with extraction on, the trimmed
/// body of the first fenced code block, if there is one; else the answer.
pub open spec fn extracted_code(content: Seq<char>, extract: bool) -> Seq<char> {
    if !extract {
        content
    } else {
        match regex_captures(code_block_pattern(), content) {
            Some(groups) => if groups.len() > 1 && groups[1] is Some {
                trim(groups[1]->0)
            } else {
                content
            },
            None => content,
        }
    }
}

/// Extract code from markdown code blocks.
pub fn extract_code_from_response(content: &str, extract_code: bool) -> (r: String)
    ensures
        r@ == extracted_code(content@, extract_code),
{
    if !extract_code {
        return to_owned(content);
    }
    match captures(r"```(?:rust|python|typescript|javascript|go|java)?\n([\s\S]*?)```", content) {
        Some(groups) => {
            if groups.len() > 1 {
                match &groups[1] {
                    Some(code) => {
                        let cs = chars_of(code.as_str());
                        let t = trimmed(&cs);
                        string_of(&t)
                    },
                    None => to_owned(content),
                }
            } else {
                to_owned(content)
            }
        },
        None => to_owned(content),
    }
}

/// The user prompt: the task, then the context under a heading, if any,
/// then the previous errors under a heading, if any.
pub open spec fn user_prompt_text(prompt: Seq<char>, context: Option<Seq<char>>, errors: Seq<Seq<char>>) -> Seq<char> {
    let with_context = match context {
        Some(c) => prompt + "\n\n## Context\n\n"@ + c,
        None => prompt,
    };
    if errors.len() == 0 {
        with_context
    } else {
        with_context + "\n\n## Previous Errors (FIX THESE)\n\n"@ + join(errors, "\n"@)
    }
}

/// Build the user prompt with context and errors.
pub fn build_user_prompt(input: &GeneratorInput) -> (r: String)
    ensures
        r@ == user_prompt_text(
            input.prompt@,
            match input.context {
                Some(c) => Some(c@),
                None => None,
            },
            views(input.previous_errors@),
        ),
{
    let mut s = String::new();
    append(&mut s, input.prompt.as_str());
    match &input.context {
        Some(c) => {
            append(&mut s, "\n\n## Context\n\n");
            append(&mut s, c.as_str());
        },
        None => {},
    }
    if input.previous_errors.len() > 0 {
        append(&mut s, "\n\n## Previous Errors (FIX THESE)\n\n");
        let joined = join_strings(input.previous_errors.as_slice(), "\n");
        append(&mut s, joined.as_str());
    }
    s
}

/// The system prompt used unless another is set.
pub fn default_system_prompt() -> (r: String)
    ensures
        r@ == "You are an expert programmer. Generate clean, well-documented code.\n\nRULES:\n1. Return ONLY valid, compilable code\n2. NO markdown formatting unless asked\n3. Include proper error handling\n4. Add doc comments for public APIs\n5. Follow language idioms and best practices"@,
{
    to_owned("You are an expert programmer. Generate clean, well-documented code.\n\nRULES:\n1. Return ONLY valid, compilable code\n2. NO markdown formatting unless asked\n3. Include proper error handling\n4. Add doc comments for public APIs\n5. Follow language idioms and best practices")
}

} // verus!
