//! Incremental validation: checking code in stages.
//!
//! 1. Types: imports and type definitions only.
//! 2. Stubs: the types, and function signatures with stub bodies.
//! 3. Logic: the full implementation.
//!
//! If the types stage fails, the types are wrong; if the stubs stage fails,
//! the signatures are; if the logic stage fails, the implementation is.
use vstd::prelude::*;
use vstd::string::*;
use crate::pipeline::sandbox_validator::{Language, SandboxValidationResult};
use crate::pipeline::rust_extractor::RustExtractor;
use crate::pipeline::typescript_extractor::TypeScriptExtractor;
use crate::pipeline::python_extractor::PythonExtractor;
use crate::pipeline::go_extractor::GoExtractor;
use crate::pipeline::shell_extractor::ShellExtractor;
use crate::text::{
    append, count, count_char, decimal, has_prefix, has_suffix, join, join_strings, lines, push_char,
    split_lines, chars_of, char_views, string_of, to_owned, to_uppercase, trim, trim_end, trimmed, trimmed_end,
    uppercase_of, views, TextLike,
};

verus! {

// ============================================================================
// STAGES
// ============================================================================

/// Validation stage.
#[derive(Debug, Clone, Copy, PartialEq, Eq, Hash, Structural)]
pub enum Stage {
    /// Imports and type definitions.
    Types,
    /// Function signatures with stub bodies.
    Stubs,
    /// Full logic implementation.
    Logic,
}

/// The name of a stage.
pub open spec fn stage_name(s: Stage) -> Seq<char> {
    match s {
        Stage::Types => "types"@,
        Stage::Stubs => "stubs"@,
        Stage::Logic => "logic"@,
    }
}

/// The stage after a stage, if any.
pub open spec fn stage_after(s: Stage) -> Option<Stage> {
    match s {
        Stage::Types => Some(Stage::Stubs),
        Stage::Stubs => Some(Stage::Logic),
        Stage::Logic => None,
    }
}

/// All stages, in order.
pub open spec fn all_stages() -> Seq<Stage> {
    seq![Stage::Types, Stage::Stubs, Stage::Logic]
}

impl Stage {
    /// The stage's name.
    pub fn name(&self) -> (r: &'static str)
        ensures
            r@ == stage_name(*self),
    {
        match self {
            Stage::Types => "types",
            Stage::Stubs => "stubs",
            Stage::Logic => "logic",
        }
    }

    /// The next stage, if any.
    pub fn next(&self) -> (r: Option<Self>)
        ensures
            r == stage_after(*self),
    {
        match self {
            Stage::Types => Some(Stage::Stubs),
            Stage::Stubs => Some(Stage::Logic),
            Stage::Logic => None,
        }
    }

    /// All stages, in order.
    pub fn all() -> (r: Vec<Self>)
        ensures
            r@ == all_stages(),
    {
        let mut v: Vec<Stage> = Vec::new();
        v.push(Stage::Types);
        v.push(Stage::Stubs);
        v.push(Stage::Logic);
        assert(v@ =~= all_stages());
        v
    }
}

/// Following `next` from the first stage visits every stage once, in the
/// order `all` lists them, and ends.
pub proof fn lemma_stages_in_order()
    ensures
        stage_after(all_stages()[0]) == Some(all_stages()[1]),
        stage_after(all_stages()[1]) == Some(all_stages()[2]),
        stage_after(all_stages()[2]) is None,
        all_stages().no_duplicates(),
{
}

// ============================================================================
// EXTRACTORS
// ============================================================================

/// The code of a stage: the types stage, the stubs stage, or the code
/// itself for the logic stage.
pub open spec fn stage_text(stage: Stage, types: Seq<char>, stubs: Seq<char>, code: Seq<char>) -> Seq<char> {
    match stage {
        Stage::Types => types,
        Stage::Stubs => stubs,
        Stage::Logic => code,
    }
}

/// Language-specific code extraction: each language defines how to extract
/// its types and its stubs.
pub trait LanguageExtractor {
    /// The language handled.
    spec fn language_of(&self) -> Language;

    /// The stub body template.
    spec fn stub_body_of(&self) -> Seq<char>;

    /// The types stage of some code: imports and type definitions.
    spec fn types_of(&self, code: Seq<char>) -> Seq<char>;

    /// The stubs stage of some code: types and function stubs.
    spec fn stubs_of(&self, code: Seq<char>) -> Seq<char>;

    /// Language this extractor handles.
    fn language(&self) -> (r: Language)
        ensures
            r == self.language_of(),
    ;

    /// Stub body template (e.g. `todo!()` for Rust).
    fn stub_body(&self) -> (r: &'static str)
        ensures
            r@ == self.stub_body_of(),
    ;

    /// Extract Stage 1: Types and imports only.
    fn extract_types(&self, code: &str) -> (r: String)
        ensures
            r@ == self.types_of(code@),
    ;

    /// Extract Stage 2: Types + function/method stubs.
    fn extract_stubs(&self, code: &str) -> (r: String)
        ensures
            r@ == self.stubs_of(code@),
    ;

    /// Extract Stage 3: the full code, unchanged.
    fn extract_logic(&self, code: &str) -> (r: String)
        ensures
            r@ == code@,
    {
        to_owned(code)
    }

    /// Get code for a specific stage.
    fn for_stage(&self, stage: Stage, code: &str) -> (r: String)
        ensures
            r@ == stage_text(stage, self.types_of(code@), self.stubs_of(code@), code@),
    {
        match stage {
            Stage::Types => self.extract_types(code),
            Stage::Stubs => self.extract_stubs(code),
            Stage::Logic => self.extract_logic(code),
        }
    }

    /// Generate the stage-specific fix prompt for this language.
    fn generate_fix_prompt(&self, stage: Stage, stage_code: &str, errors: &[String], full_code: &str) -> (r:
        String)
        requires
            stage != Stage::Types && full_code.spec_bytes().len() > 2000 ==> vstd::utf8::is_char_boundary(
                full_code.spec_bytes(),
                2000,
            ),
        ensures
            r@ == fix_prompt_text(self.language_of(), stage, stage_code@, views(errors@), full_code@),
    {
        generate_stage_fix_prompt(self.language(), stage, stage_code, errors, full_code)
    }
}

/// The language whose extractor handles a language: JavaScript is handled
/// as TypeScript.
pub open spec fn extractor_language(l: Language) -> Language {
    match l {
        Language::JavaScript => Language::TypeScript,
        _ => l,
    }
}

/// The extractor of one of the supported languages.
#[derive(Debug, Clone, Copy)]
pub enum AnyExtractor {
    Rust(RustExtractor),
    TypeScript(TypeScriptExtractor),
    Python(PythonExtractor),
    Go(GoExtractor),
    Shell(ShellExtractor),
}

impl LanguageExtractor for AnyExtractor {
    open spec fn language_of(&self) -> Language {
        match self {
            AnyExtractor::Rust(e) => e.language_of(),
            AnyExtractor::TypeScript(e) => e.language_of(),
            AnyExtractor::Python(e) => e.language_of(),
            AnyExtractor::Go(e) => e.language_of(),
            AnyExtractor::Shell(e) => e.language_of(),
        }
    }

    open spec fn stub_body_of(&self) -> Seq<char> {
        match self {
            AnyExtractor::Rust(e) => e.stub_body_of(),
            AnyExtractor::TypeScript(e) => e.stub_body_of(),
            AnyExtractor::Python(e) => e.stub_body_of(),
            AnyExtractor::Go(e) => e.stub_body_of(),
            AnyExtractor::Shell(e) => e.stub_body_of(),
        }
    }

    open spec fn types_of(&self, code: Seq<char>) -> Seq<char> {
        match self {
            AnyExtractor::Rust(e) => e.types_of(code),
            AnyExtractor::TypeScript(e) => e.types_of(code),
            AnyExtractor::Python(e) => e.types_of(code),
            AnyExtractor::Go(e) => e.types_of(code),
            AnyExtractor::Shell(e) => e.types_of(code),
        }
    }

    open spec fn stubs_of(&self, code: Seq<char>) -> Seq<char> {
        match self {
            AnyExtractor::Rust(e) => e.stubs_of(code),
            AnyExtractor::TypeScript(e) => e.stubs_of(code),
            AnyExtractor::Python(e) => e.stubs_of(code),
            AnyExtractor::Go(e) => e.stubs_of(code),
            AnyExtractor::Shell(e) => e.stubs_of(code),
        }
    }

    fn language(&self) -> (r: Language) {
        match self {
            AnyExtractor::Rust(e) => e.language(),
            AnyExtractor::TypeScript(e) => e.language(),
            AnyExtractor::Python(e) => e.language(),
            AnyExtractor::Go(e) => e.language(),
            AnyExtractor::Shell(e) => e.language(),
        }
    }

    fn stub_body(&self) -> (r: &'static str) {
        match self {
            AnyExtractor::Rust(e) => e.stub_body(),
            AnyExtractor::TypeScript(e) => e.stub_body(),
            AnyExtractor::Python(e) => e.stub_body(),
            AnyExtractor::Go(e) => e.stub_body(),
            AnyExtractor::Shell(e) => e.stub_body(),
        }
    }

    fn extract_types(&self, code: &str) -> (r: String) {
        match self {
            AnyExtractor::Rust(e) => e.extract_types(code),
            AnyExtractor::TypeScript(e) => e.extract_types(code),
            AnyExtractor::Python(e) => e.extract_types(code),
            AnyExtractor::Go(e) => e.extract_types(code),
            AnyExtractor::Shell(e) => e.extract_types(code),
        }
    }

    fn extract_stubs(&self, code: &str) -> (r: String) {
        match self {
            AnyExtractor::Rust(e) => e.extract_stubs(code),
            AnyExtractor::TypeScript(e) => e.extract_stubs(code),
            AnyExtractor::Python(e) => e.extract_stubs(code),
            AnyExtractor::Go(e) => e.extract_stubs(code),
            AnyExtractor::Shell(e) => e.extract_stubs(code),
        }
    }
}

/// The extractor that handles a language.
pub open spec fn extractor_for(l: Language) -> AnyExtractor {
    match l {
        Language::Rust => AnyExtractor::Rust(RustExtractor),
        Language::TypeScript | Language::JavaScript => AnyExtractor::TypeScript(TypeScriptExtractor),
        Language::Python => AnyExtractor::Python(PythonExtractor),
        Language::Go => AnyExtractor::Go(GoExtractor),
        Language::Shell => AnyExtractor::Shell(ShellExtractor),
    }
}

/// Get the appropriate extractor for a language (JavaScript uses the
/// TypeScript one).
pub fn get_extractor(lang: Language) -> (r: AnyExtractor)
    ensures
        r == extractor_for(lang),
        r.language_of() == extractor_language(lang),
{
    match lang {
        Language::Rust => AnyExtractor::Rust(RustExtractor),
        Language::TypeScript => AnyExtractor::TypeScript(TypeScriptExtractor),
        Language::JavaScript => AnyExtractor::TypeScript(TypeScriptExtractor),
        Language::Python => AnyExtractor::Python(PythonExtractor),
        Language::Go => AnyExtractor::Go(GoExtractor),
        Language::Shell => AnyExtractor::Shell(ShellExtractor),
    }
}

/// Result of validating a stage.
#[derive(Debug)]
pub struct StageValidation {
    pub stage: Stage,
    pub passed: bool,
    pub code: String,
    pub errors: Vec<String>,
    pub duration_ms: u64,
}

/// The code validated at each stage that passed.
#[derive(Debug)]
pub struct StageCodes {
    types: Option<String>,
    stubs: Option<String>,
    logic: Option<String>,
}

impl StageCodes {
    /// The code kept for a stage.
    pub closed spec fn code_of(&self, stage: Stage) -> Option<Seq<char>> {
        let o = match stage {
            Stage::Types => self.types,
            Stage::Stubs => self.stubs,
            Stage::Logic => self.logic,
        };
        match o {
            Some(s) => Some(s@),
            None => None,
        }
    }

    /// No code for any stage.
    pub fn new() -> (r: Self)
        ensures
            forall|s: Stage| #[trigger] r.code_of(s) is None,
    {
        StageCodes { types: None, stubs: None, logic: None }
    }

    /// Keeps the code of a stage.
    pub fn insert(&mut self, stage: Stage, code: String)
        ensures
            final(self).code_of(stage) == Some(code@),
            forall|s: Stage| s != stage ==> #[trigger] final(self).code_of(s) == old(self).code_of(s),
    {
        match stage {
            Stage::Types => self.types = Some(code),
            Stage::Stubs => self.stubs = Some(code),
            Stage::Logic => self.logic = Some(code),
        }
    }

    /// The code kept for a stage.
    pub fn get(&self, stage: Stage) -> (r: Option<&String>)
        ensures
            match r {
                Some(c) => self.code_of(stage) == Some(c@),
                None => self.code_of(stage) is None,
            },
    {
        match stage {
            Stage::Types => self.types.as_ref(),
            Stage::Stubs => self.stubs.as_ref(),
            Stage::Logic => self.logic.as_ref(),
        }
    }

    /// How many stages have code.
    pub fn len(&self) -> (n: usize)
        ensures
            n == (if self.code_of(Stage::Types) is Some { 1nat } else { 0nat })
                + (if self.code_of(Stage::Stubs) is Some { 1nat } else { 0nat })
                + (if self.code_of(Stage::Logic) is Some { 1nat } else { 0nat }),
    {
        let a: usize = if self.types.is_some() { 1 } else { 0 };
        let b: usize = if self.stubs.is_some() { 1 } else { 0 };
        let c: usize = if self.logic.is_some() { 1 } else { 0 };
        a + b + c
    }
}

/// Result of incremental validation.
#[derive(Debug)]
pub struct IncrementalResult {
    /// Which stage failed (if any)
    pub failed_stage: Option<Stage>,
    /// Last stage that passed
    pub last_passed_stage: Option<Stage>,
    /// Validated code at each passing stage
    pub validated_code: StageCodes,
    /// All stage results
    pub stages: Vec<StageValidation>,
    /// Overall success
    pub passed: bool,
    /// Total duration
    pub total_duration_ms: u64,
}

/// `stage: ✓` or `stage: ✗`.
pub open spec fn stage_mark(s: StageValidation) -> Seq<char> {
    stage_name(s.stage) + ": "@ + if s.passed { "✓"@ } else { "✗"@ }
}

/// The marks of the stages, in order.
pub open spec fn stage_marks(ss: Seq<StageValidation>) -> Seq<Seq<char>> {
    ss.map_values(|s: StageValidation| stage_mark(s))
}

/// The one-line summary of a result.
pub open spec fn summary_text(r: IncrementalResult) -> Seq<char> {
    "["@ + join(stage_marks(r.stages@), " → "@) + "] "@ + if r.passed {
        "ALL PASSED"@
    } else {
        "FAILED at "@ + match r.failed_stage {
            Some(s) => stage_name(s),
            None => "?"@,
        }
    }
}

/// Index of the first stage that did not pass, if any.
pub open spec fn first_failure(ss: Seq<StageValidation>) -> Option<int>
    decreases ss.len(),
{
    if ss.len() == 0 {
        None
    } else {
        match first_failure(ss.drop_last()) {
            Some(i) => Some(i),
            None => if !ss.last().passed { Some(ss.len() - 1) } else { None },
        }
    }
}

impl IncrementalResult {
    /// Index of the first stage that did not pass, if any.
    fn failure_index(&self) -> (r: Option<usize>)
        ensures
            match r {
                Some(i) => first_failure(self.stages@) == Some(i as int) && i < self.stages@.len(),
                None => first_failure(self.stages@) is None,
            },
    {
        let mut i: usize = 0;
        while i < self.stages.len()
            invariant
                i <= self.stages@.len(),
                first_failure(self.stages@.take(i as int)) is None,
            decreases self.stages.len() - i,
        {
            let ghost t = self.stages@.take(i + 1);
            assert(t.drop_last() =~= self.stages@.take(i as int));
            if !self.stages[i].passed {
                proof {
                    lemma_first_failure_prefix(self.stages@, i + 1);
                }
                return Some(i);
            }
            i = i + 1;
        }
        assert(self.stages@.take(self.stages@.len() as int) =~= self.stages@);
        None
    }

    /// A one-line summary: each stage with its mark, then whether all
    /// passed or where it failed.
    pub fn summary(&self) -> (r: String)
        ensures
            r@ == summary_text(*self),
    {
        let mut marks: Vec<String> = Vec::new();
        let mut i: usize = 0;
        while i < self.stages.len()
            invariant
                i <= self.stages@.len(),
                views(marks@) == stage_marks(self.stages@.take(i as int)),
            decreases self.stages.len() - i,
        {
            let mut m = String::new();
            append(&mut m, self.stages[i].stage.name());
            append(&mut m, ": ");
            if self.stages[i].passed {
                append(&mut m, "✓");
            } else {
                append(&mut m, "✗");
            }
            let ghost before = views(marks@);
            let ghost mv = m@;
            marks.push(m);
            assert(views(marks@) =~= stage_marks(self.stages@.take(i + 1))) by {
                assert(views(marks@) =~= before.push(mv));
                assert(self.stages@.take(i + 1) =~= self.stages@.take(i as int).push(self.stages@[i as int]));
            }
            i = i + 1;
        }
        assert(self.stages@.take(self.stages@.len() as int) =~= self.stages@);
        let joined = join_strings(marks.as_slice(), " → ");
        let mut s = String::new();
        append(&mut s, "[");
        append(&mut s, joined.as_str());
        append(&mut s, "] ");
        if self.passed {
            append(&mut s, "ALL PASSED");
        } else {
            append(&mut s, "FAILED at ");
            match self.failed_stage {
                Some(st) => append(&mut s, st.name()),
                None => append(&mut s, "?"),
            }
        }
        s
    }

    /// The errors of the first stage that failed, or none.
    pub fn errors(&self) -> (r: Vec<String>)
        ensures
            match first_failure(self.stages@) {
                Some(i) => r@ == self.stages@[i].errors@,
                None => r@.len() == 0,
            },
    {
        match self.failure_index() {
            Some(i) => {
                let mut r: Vec<String> = Vec::new();
                let mut k: usize = 0;
                while k < self.stages[i].errors.len()
                    invariant
                        i < self.stages@.len(),
                        k <= self.stages@[i as int].errors@.len(),
                        r@ == self.stages@[i as int].errors@.take(k as int),
                    decreases self.stages@[i as int].errors@.len() - k,
                {
                    r.push(self.stages[i].errors[k].clone());
                    assert(self.stages@[i as int].errors@.take(k + 1)
                        =~= self.stages@[i as int].errors@.take(k as int).push(self.stages@[i as int].errors@[k as int]));
                    k = k + 1;
                }
                assert(self.stages@[i as int].errors@.take(self.stages@[i as int].errors@.len() as int)
                    =~= self.stages@[i as int].errors@);
                r
            },
            None => Vec::new(),
        }
    }

    /// The code of the first stage that failed, if any: the code to fix.
    pub fn code_to_fix(&self) -> (r: Option<&str>)
        ensures
            match first_failure(self.stages@) {
                Some(i) => r matches Some(c) && c@ == self.stages@[i].code@,
                None => r is None,
            },
    {
        match self.failure_index() {
            Some(i) => Some(self.stages[i].code.as_str()),
            None => None,
        }
    }
}

/// A copy of a list of strings.
fn copy_strings(v: &Vec<String>) -> (r: Vec<String>)
    ensures
        r@ == v@,
{
    let mut r: Vec<String> = Vec::new();
    let mut k: usize = 0;
    while k < v.len()
        invariant
            k <= v@.len(),
            r@ == v@.take(k as int),
        decreases v.len() - k,
    {
        r.push(v[k].clone());
        assert(v@.take(k + 1) =~= v@.take(k as int).push(v@[k as int]));
        k = k + 1;
    }
    assert(v@.take(v@.len() as int) =~= v@);
    r
}

/// The result of validating one stage's code, from the sandbox's result:
/// it passed when the sandbox says so, and its errors are the compiler
/// errors when the code did not compile, the test errors otherwise.
pub fn stage_validation(
    stage: Stage,
    stage_code: String,
    result: &SandboxValidationResult,
    duration_ms: u64,
) -> (r: StageValidation)
    ensures
        r.stage == stage,
        r.passed == result.passed,
        r.code@ == stage_code@,
        r.errors@ == if !result.compiles { result.compiler_errors@ } else { result.test_errors@ },
        r.duration_ms == duration_ms,
{
    let errors = if !result.compiles {
        copy_strings(&result.compiler_errors)
    } else {
        copy_strings(&result.test_errors)
    };
    StageValidation { stage, passed: result.passed, code: stage_code, errors, duration_ms }
}

/// Whether a result so far is one that recording stages in order, up to
/// the first failure, produces: the recorded stages are the first stages
/// in order; all of them but the last passed;
/// the last one failed exactly when a failed stage is set, and it is that
/// stage; the last passed stage and the kept codes are those of the passed
/// stages; and the result passed exactly when no stage failed.
pub open spec fn records_in_order(r: IncrementalResult) -> bool {
    let ss = r.stages@;
    &&& ss.len() <= all_stages().len()
    &&& forall|i: int| 0 <= i < ss.len() ==> #[trigger] ss[i].stage == all_stages()[i]
    &&& forall|i: int| 0 <= i < ss.len() - 1 ==> #[trigger] ss[i].passed
    &&& r.passed == (r.failed_stage is None)
    &&& match r.failed_stage {
        Some(f) => ss.len() > 0 && !ss.last().passed && ss.last().stage == f,
        None => ss.len() == 0 || ss.last().passed,
    }
    &&& forall|i: int| 0 <= i < ss.len() && #[trigger] ss[i].passed ==> r.validated_code.code_of(ss[i].stage) == Some(ss[i].code@)
}

impl IncrementalResult {
    /// A result with no stage validated yet.
    pub fn start() -> (r: Self)
        ensures
            r.failed_stage is None,
            r.last_passed_stage is None,
            forall|s: Stage| #[trigger] r.validated_code.code_of(s) is None,
            r.stages@.len() == 0,
            r.passed,
            r.total_duration_ms == 0,
            records_in_order(r),
    {
        IncrementalResult {
            failed_stage: None,
            last_passed_stage: None,
            validated_code: StageCodes::new(),
            stages: Vec::new(),
            passed: true,
            total_duration_ms: 0,
        }
    }

    /// Records the validation of the next stage; returns whether to go on
    /// to the next stage, which is so when this one passed. A stage that
    /// passed has its code kept and becomes the last passed stage; one that
    /// failed becomes the failed stage, and the result fails.
    pub fn record(&mut self, sv: StageValidation) -> (go_on: bool)
        requires
            old(self).failed_stage is None,
        ensures
            go_on == sv.passed,
            final(self).stages@ == old(self).stages@.push(sv),
            final(self).total_duration_ms == old(self).total_duration_ms,
            sv.passed ==> {
                &&& final(self).validated_code.code_of(sv.stage) == Some(sv.code@)
                &&& forall|s: Stage| s != sv.stage ==> #[trigger] final(self).validated_code.code_of(s)
                    == old(self).validated_code.code_of(s)
                &&& final(self).last_passed_stage == Some(sv.stage)
                &&& final(self).failed_stage is None
                &&& final(self).passed == old(self).passed
            },
            !sv.passed ==> {
                &&& forall|s: Stage| #[trigger] final(self).validated_code.code_of(s)
                    == old(self).validated_code.code_of(s)
                &&& final(self).last_passed_stage == old(self).last_passed_stage
                &&& final(self).failed_stage == Some(sv.stage)
                &&& !final(self).passed
            },
            records_in_order(*old(self)) && old(self).stages@.len() < all_stages().len() && sv.stage
                == all_stages()[old(self).stages@.len() as int] ==> records_in_order(*final(self)),
    {
        let ghost old_stages = self.stages@;
        let passed = sv.passed;
        let stage = sv.stage;
        if passed {
            let code = sv.code.clone();
            self.validated_code.insert(stage, code);
            self.last_passed_stage = Some(stage);
        } else {
            self.failed_stage = Some(stage);
            self.passed = false;
        }
        self.stages.push(sv);
        proof {
            let ss = self.stages@;
            assert(ss.len() == old_stages.len() + 1);
            if records_in_order(*old(self)) && old_stages.len() < all_stages().len() && stage
                == all_stages()[old_stages.len() as int] {
                assert forall|i: int| 0 <= i < ss.len() - 1 implies #[trigger] ss[i].passed by {
                    assert(ss[i] == old_stages[i]);
                    if i < old_stages.len() - 1 {
                    } else {
                        assert(old_stages.len() > 0 && i == old_stages.len() - 1);
                    }
                }
                assert forall|i: int| 0 <= i < ss.len() && #[trigger] ss[i].passed implies self.validated_code.code_of(
                    ss[i].stage,
                ) == Some(ss[i].code@) by {
                    if i < old_stages.len() {
                        assert(ss[i] == old_stages[i]);
                        assert(ss[i].stage != stage) by {
                            lemma_stages_in_order();
                        }
                    }
                }
            }
        }
        passed
    }
}

/// The first failure of a prefix that ends with a failure, after passes, is
/// its last stage.
proof fn lemma_first_failure_prefix(ss: Seq<StageValidation>, n: int)
    requires
        0 < n <= ss.len(),
        first_failure(ss.take(n - 1)) is None,
        !ss[n - 1].passed,
    ensures
        first_failure(ss) == Some(n - 1),
    decreases ss.len(),
{
    if ss.len() > n {
        assert(ss.drop_last().take(n - 1) =~= ss.take(n - 1));
        lemma_first_failure_prefix(ss.drop_last(), n);
    } else {
        assert(ss.drop_last() =~= ss.take(n - 1));
    }
}


// ============================================================================
// FIX PROMPTS
// ============================================================================

/// How a language is named in a fix prompt.
pub open spec fn language_label(l: Language) -> Seq<char> {
    match l {
        Language::Rust => "RUST"@,
        Language::TypeScript | Language::JavaScript => "TYPESCRIPT"@,
        Language::Python => "PYTHON"@,
        Language::Go => "GO"@,
        Language::Shell => "SHELL"@,
    }
}

/// A stage's name in capitals.
pub open spec fn stage_upper(s: Stage) -> Seq<char> {
    match s {
        Stage::Types => "TYPES"@,
        Stage::Stubs => "STUBS"@,
        Stage::Logic => "LOGIC"@,
    }
}

/// What a fix prompt says of the failed stage and what to fix.
pub open spec fn stage_guidance(l: Language, s: Stage) -> Seq<char> {
    match s {
        Stage::Types => "The TYPE DEFINITIONS have errors.\n"@ + match l {
            Language::Rust => "Fix ONLY the struct/enum/type definitions.\n\n"@,
            Language::TypeScript | Language::JavaScript => "Fix ONLY the interface/type/enum definitions.\n"@
                + "RULES:\n"@ + "- Interfaces use { } not = { }\n"@ + "- Type aliases use = syntax\n\n"@,
            Language::Python => "Fix ONLY the TypedDict/Protocol/dataclass definitions.\n\n"@,
            Language::Go => "Fix ONLY the struct/interface type definitions.\n\n"@,
            _ => "Fix ONLY the type definitions.\n\n"@,
        },
        Stage::Stubs => "The FUNCTION SIGNATURES have errors.\n"@
            + "Fix ONLY the function signatures (parameters, return types).\n"@
            + "Do NOT change the type definitions - they are correct.\n\n"@,
        Stage::Logic => "The LOGIC IMPLEMENTATION has errors.\n"@ + "Fix ONLY the function bodies.\n"@
            + "Do NOT change type definitions or function signatures.\n\n"@ + match l {
            Language::TypeScript | Language::JavaScript => "CRITICAL SYNTAX RULES (READ CAREFULLY!):\n\n"@
                + "STRING INTERPOLATION REQUIRES BACKTICKS:\n"@
                + "  WRONG:   throw new Error(Invalid: ${var})     // NO QUOTES = ERROR!\n"@
                + "  WRONG:   throw new Error(\"Invalid: ${var}\")   // QUOTES DON'T WORK!\n"@
                + "  CORRECT: throw new Error(`Invalid: ${var}`)   // BACKTICKS REQUIRED!\n\n"@
                + "EXAMPLES OF CORRECT USAGE:\n"@ + "  throw new Error(`State ${state} is invalid`);\n"@
                + "  console.log(`Value: ${value}`);\n"@ + "  const msg = `Hello ${name}`;\n\n"@,
            Language::Python => "CRITICAL RULES:\n"@ + "- Use f-strings for interpolation: f\"text {var}\"\n"@
                + "- NEVER use: \"text {var}\" without f prefix\n\n"@,
            _ => Seq::empty(),
        },
    }
}

/// The first line of a text, or the text when it has no lines.
pub open spec fn first_line(e: Seq<char>) -> Seq<char> {
    if lines(e).len() > 0 { lines(e)[0] } else { e }
}

/// The first line of each error, each followed by a newline.
pub open spec fn error_lines(errors: Seq<Seq<char>>) -> Seq<char>
    decreases errors.len(),
{
    if errors.len() == 0 {
        Seq::empty()
    } else {
        error_lines(errors.drop_last()) + first_line(errors.last()) + "\n"@
    }
}

/// The smaller of two integers.
pub open spec fn min_int(a: int, b: int) -> int {
    if a < b { a } else { b }
}

/// The first `n` bytes of a text's UTF-8 encoding, as characters.
pub open spec fn utf8_head(s: Seq<char>, n: int) -> Seq<char> {
    vstd::utf8::decode_utf8(vstd::utf8::encode_utf8(s).subrange(0, n))
}

/// The full code as a fix prompt quotes it: its first 2000 bytes, marked
/// as truncated when it is longer.
pub open spec fn quoted_context(full: Seq<char>) -> Seq<char> {
    let len = vstd::utf8::encode_utf8(full).len();
    if len <= 2000 {
        full
    } else {
        utf8_head(full, 2000) + "\n... (truncated)"@
    }
}

/// A targeted fix prompt for a failed stage.
pub open spec fn fix_prompt_text(
    language: Language,
    stage: Stage,
    stage_code: Seq<char>,
    errors: Seq<Seq<char>>,
    full_code: Seq<char>,
) -> Seq<char> {
    let shown = errors.take(min_int(5, errors.len() as int));
    let context = if stage != Stage::Types {
        "\n\n=== FULL CONTEXT (for reference) ===\n"@ + quoted_context(full_code)
    } else {
        Seq::empty()
    };
    "=== "@ + language_label(language) + " FAILED AT STAGE: "@ + stage_upper(stage) + " ===\n\n"@
        + stage_guidance(language, stage) + "=== ERRORS ===\n"@ + error_lines(shown) + "\n=== CODE TO FIX ===\n"@
        + stage_code + context + "\n\n=== INSTRUCTIONS ===\n"@ + "Return the COMPLETE fixed code (all stages combined).\n"@
        + "NO markdown. NO explanations.\n"@
}

/// The first line of a text, or the text when it has no lines.
fn first_line_of(e: &str) -> (r: String)
    ensures
        r@ == first_line(e@),
{
    let cs = chars_of(e);
    let ls = split_lines(&cs);
    if ls.len() > 0 {
        assert(char_views(ls@)[0] == ls@[0]@);
        string_of(ls[0].as_slice())
    } else {
        to_owned(e)
    }
}

/// Generate a targeted fix prompt for a failed stage (language-aware).
pub fn generate_stage_fix_prompt(
    language: Language,
    stage: Stage,
    stage_code: &str,
    errors: &[String],
    full_code: &str,
) -> (r: String)
    requires
        stage != Stage::Types && full_code.spec_bytes().len() > 2000 ==> vstd::utf8::is_char_boundary(
            full_code.spec_bytes(),
            2000,
        ),
    ensures
        r@ == fix_prompt_text(language, stage, stage_code@, views(errors@), full_code@),
{
    let mut prompt = String::new();
    let label = match language {
        Language::Rust => "RUST",
        Language::TypeScript | Language::JavaScript => "TYPESCRIPT",
        Language::Python => "PYTHON",
        Language::Go => "GO",
        Language::Shell => "SHELL",
    };
    append(&mut prompt, "=== ");
    append(&mut prompt, label);
    append(&mut prompt, " FAILED AT STAGE: ");
    let upper = match stage {
        Stage::Types => "TYPES",
        Stage::Stubs => "STUBS",
        Stage::Logic => "LOGIC",
    };
    append(&mut prompt, upper);
    append(&mut prompt, " ===\n\n");
    let ghost head = prompt@;
    match stage {
        Stage::Types => {
            append(&mut prompt, "The TYPE DEFINITIONS have errors.\n");
            match language {
                Language::Rust => {
                    append(&mut prompt, "Fix ONLY the struct/enum/type definitions.\n\n");
                },
                Language::TypeScript | Language::JavaScript => {
                    append(&mut prompt, "Fix ONLY the interface/type/enum definitions.\n");
                    append(&mut prompt, "RULES:\n");
                    append(&mut prompt, "- Interfaces use { } not = { }\n");
                    append(&mut prompt, "- Type aliases use = syntax\n\n");
                },
                Language::Python => {
                    append(&mut prompt, "Fix ONLY the TypedDict/Protocol/dataclass definitions.\n\n");
                },
                Language::Go => {
                    append(&mut prompt, "Fix ONLY the struct/interface type definitions.\n\n");
                },
                _ => {
                    append(&mut prompt, "Fix ONLY the type definitions.\n\n");
                },
            }
        },
        Stage::Stubs => {
            append(&mut prompt, "The FUNCTION SIGNATURES have errors.\n");
            append(&mut prompt, "Fix ONLY the function signatures (parameters, return types).\n");
            append(&mut prompt, "Do NOT change the type definitions - they are correct.\n\n");
        },
        Stage::Logic => {
            append(&mut prompt, "The LOGIC IMPLEMENTATION has errors.\n");
            append(&mut prompt, "Fix ONLY the function bodies.\n");
            append(&mut prompt, "Do NOT change type definitions or function signatures.\n\n");
            match language {
                Language::TypeScript | Language::JavaScript => {
                    append(&mut prompt, "CRITICAL SYNTAX RULES (READ CAREFULLY!):\n\n");
                    append(&mut prompt, "STRING INTERPOLATION REQUIRES BACKTICKS:\n");
                    append(&mut prompt, "  WRONG:   throw new Error(Invalid: ${var})     // NO QUOTES = ERROR!\n");
                    append(&mut prompt, "  WRONG:   throw new Error(\"Invalid: ${var}\")   // QUOTES DON'T WORK!\n");
                    append(&mut prompt, "  CORRECT: throw new Error(`Invalid: ${var}`)   // BACKTICKS REQUIRED!\n\n");
                    append(&mut prompt, "EXAMPLES OF CORRECT USAGE:\n");
                    append(&mut prompt, "  throw new Error(`State ${state} is invalid`);\n");
                    append(&mut prompt, "  console.log(`Value: ${value}`);\n");
                    append(&mut prompt, "  const msg = `Hello ${name}`;\n\n");
                },
                Language::Python => {
                    append(&mut prompt, "CRITICAL RULES:\n");
                    append(&mut prompt, "- Use f-strings for interpolation: f\"text {var}\"\n");
                    append(&mut prompt, "- NEVER use: \"text {var}\" without f prefix\n\n");
                },
                _ => {},
            }
        },
    }
    assert(prompt@ =~= head + stage_guidance(language, stage));
    append(&mut prompt, "=== ERRORS ===\n");
    let ghost before_errors = prompt@;
    let limit: usize = if errors.len() < 5 { errors.len() } else { 5 };
    let ghost ev = views(errors@);
    let mut i: usize = 0;
    while i < limit
        invariant
            i <= limit <= errors@.len(),
            limit == min_int(5, errors@.len() as int),
            ev == views(errors@),
            prompt@ == before_errors + error_lines(ev.take(i as int)),
        decreases limit - i,
    {
        let line = first_line_of(errors[i].as_str());
        append(&mut prompt, line.as_str());
        push_char(&mut prompt, '\n');
        proof {
            reveal_strlit("\n");
            let t = ev.take(i + 1);
            assert(t.drop_last() =~= ev.take(i as int));
            assert(t.last() == errors@[i as int]@);
            assert(prompt@ =~= before_errors + error_lines(t));
        }
        i = i + 1;
    }
    append(&mut prompt, "\n=== CODE TO FIX ===\n");
    append(&mut prompt, stage_code);
    let ghost before_context = prompt@;
    if stage != Stage::Types {
        append(&mut prompt, "\n\n=== FULL CONTEXT (for reference) ===\n");
        let ghost before_quote = prompt@;
        let full_bytes = full_code.as_bytes();
        if full_bytes.len() > 2000 {
            let (shown, _) = full_code.split_at(2000);
            proof {
                vstd::utf8::encode_utf8_decode_utf8(shown@);
                assert(shown@ == utf8_head(full_code@, 2000));
            }
            append(&mut prompt, shown);
            append(&mut prompt, "\n... (truncated)");
            assert(prompt@ =~= before_quote + quoted_context(full_code@));
        } else {
            append(&mut prompt, full_code);
            assert(prompt@ =~= before_quote + quoted_context(full_code@));
        }
        assert(prompt@ =~= before_context + ("\n\n=== FULL CONTEXT (for reference) ===\n"@ + quoted_context(full_code@)));
    }
    assert(prompt@ =~= before_context + if stage != Stage::Types {
        "\n\n=== FULL CONTEXT (for reference) ===\n"@ + quoted_context(full_code@)
    } else {
        Seq::empty()
    });
    append(&mut prompt, "\n\n=== INSTRUCTIONS ===\n");
    append(&mut prompt, "Return the COMPLETE fixed code (all stages combined).\n");
    append(&mut prompt, "NO markdown. NO explanations.\n");
    prompt
}

} // verus!
