//! Code assembler: merges code fragments into one source text, with their
//! import lines collected once at the top and a section header before each
//! fragment.
use vstd::prelude::*;
use crate::graph::executor::ExecutorKind;
use crate::graph::types::ExecutorId;
use crate::text::{
    append, chars_of, char_views, has_infix, has_prefix, insert_sorted, join, join_strings, lines,
    lemma_sorted_unique_determined, lowercase_of, push_char, repeat, repeat_char, sorted_unique,
    split_lines, starts_with, contains, str_eq, string_of, strictly_sorted, to_lowercase, to_uppercase,
    trim, trim_end, trim_start, trimmed, trimmed_end, trimmed_start, uppercase_of, views, TextLike,
};

verus! {

// ============================================================================
// INPUT/OUTPUT TYPES
// ============================================================================

/// A code part to be assembled.
#[derive(Debug)]
pub struct CodePart {
    /// Name/identifier of this part.
    pub name: String,
    /// The code content.
    pub code: String,
    /// Language of the code.
    pub language: String,
    /// Optional section header.
    pub section: Option<String>,
}

impl CodePart {
    /// A code part without a section header.
    pub fn new(name: impl TextLike, code: impl TextLike, language: impl TextLike) -> (r: Self)
        ensures
            r.name@ == name.text(),
            r.code@ == code.text(),
            r.language@ == language.text(),
            r.section is None,
    {
        CodePart { name: name.into_string(), code: code.into_string(), language: language.into_string(), section: None }
    }

    /// The same part with a section header.
    pub fn with_section(self, section: impl TextLike) -> (r: Self)
        ensures
            r.name == self.name,
            r.code == self.code,
            r.language == self.language,
            r.section matches Some(s) && s@ == section.text(),
    {
        let mut p = self;
        p.section = Some(section.into_string());
        p
    }
}

/// Input to the assembler.
#[derive(Debug)]
pub struct AssemblyInput {
    /// Parts to assemble.
    pub parts: Vec<CodePart>,
    /// Target language.
    pub language: String,
}

impl AssemblyInput {
    /// An input without parts.
    pub fn new(language: impl TextLike) -> (r: Self)
        ensures
            r.parts@.len() == 0,
            r.language@ == language.text(),
    {
        AssemblyInput { parts: Vec::new(), language: language.into_string() }
    }

    /// The same input with one more part, last.
    pub fn add_part(self, part: CodePart) -> (r: Self)
        ensures
            r.parts@ == self.parts@.push(part),
            r.language == self.language,
    {
        let mut i = self;
        i.parts.push(part);
        i
    }
}

/// The length in bytes of the UTF-8 encoding of a text.
pub open spec fn utf8_len(s: Seq<char>) -> usize {
    vstd::utf8::encode_utf8(s).len() as usize
}

/// Output from the assembler.
#[derive(Debug)]
pub struct AssembledCode {
    /// The final assembled code.
    pub code: String,
    /// Language of the code.
    pub language: String,
    /// Number of parts assembled.
    pub part_count: usize,
    /// Total size in bytes.
    pub size_bytes: usize,
}

impl AssembledCode {
    /// Assembled code, measured in bytes.
    pub fn new(code: impl TextLike, language: impl TextLike, part_count: usize) -> (r: Self)
        ensures
            r.code@ == code.text(),
            r.language@ == language.text(),
            r.part_count == part_count,
            r.size_bytes == utf8_len(code.text()),
    {
        let code = code.into_string();
        let size_bytes = code.as_str().len();
        AssembledCode { code, language: language.into_string(), part_count, size_bytes }
    }
}

// ============================================================================
// LANGUAGE RULES
// ============================================================================

/// The comment prefix for a language (by its lowercase name).
pub open spec fn comment_prefix_text(lower: Seq<char>) -> Seq<char> {
    if lower == "python"@ || lower == "ruby"@ || lower == "bash"@ || lower == "sh"@ {
        "#"@
    } else if lower == "html"@ || lower == "xml"@ {
        "<!--"@
    } else {
        "//"@
    }
}

/// Whether a trimmed line is an import in the language (by its lowercase
/// name).
pub open spec fn is_import_line(t: Seq<char>, lower: Seq<char>) -> bool {
    if lower == "rust"@ {
        has_prefix(t, "use "@) || has_prefix(t, "extern crate"@)
    } else if lower == "python"@ {
        has_prefix(t, "import "@) || has_prefix(t, "from "@)
    } else if lower == "javascript"@ || lower == "typescript"@ {
        has_prefix(t, "import "@) || (has_prefix(t, "const "@) && has_infix(t, "require("@))
    } else if lower == "go"@ || lower == "java"@ {
        has_prefix(t, "import "@)
    } else {
        false
    }
}

/// The lines of `code` that are imports in `language`, untrimmed, in order.
pub open spec fn import_lines(code: Seq<char>, language: Seq<char>) -> Seq<Seq<char>> {
    lines(code).filter(|l: Seq<char>| is_import_line(trim(l), lowercase_of(language)))
}

/// `code` without its import lines, the others joined by newlines, with
/// leading white space removed.
pub open spec fn without_imports(code: Seq<char>, language: Seq<char>) -> Seq<char> {
    trim_start(join(lines(code).filter(|l: Seq<char>| !is_import_line(trim(l), lowercase_of(language))), "\n"@))
}

/// Get the comment prefix for a language.
pub fn comment_prefix(language: &str) -> (r: &'static str)
    ensures
        r@ == comment_prefix_text(lowercase_of(language@)),
{
    let lower = to_lowercase(language);
    let l = lower.as_str();
    if str_eq(l, "python") || str_eq(l, "ruby") || str_eq(l, "bash") || str_eq(l, "sh") {
        "#"
    } else if str_eq(l, "html") || str_eq(l, "xml") {
        "<!--"
    } else {
        "//"
    }
}

/// Whether a trimmed line is an import in the language (given by its
/// lowercase name).
fn is_import(t: &[char], lower: &str) -> (b: bool)
    ensures
        b == is_import_line(t@, lower@),
{
    if str_eq(lower, "rust") {
        starts_with(t, &chars_of("use ")) || starts_with(t, &chars_of("extern crate"))
    } else if str_eq(lower, "python") {
        starts_with(t, &chars_of("import ")) || starts_with(t, &chars_of("from "))
    } else if str_eq(lower, "javascript") || str_eq(lower, "typescript") {
        starts_with(t, &chars_of("import ")) || (starts_with(t, &chars_of("const ")) && contains(t, &chars_of("require(")))
    } else if str_eq(lower, "go") || str_eq(lower, "java") {
        starts_with(t, &chars_of("import "))
    } else {
        false
    }
}

/// The lines of `code` that are, or are not, imports in `language`, in
/// order.
fn select_lines(code: &str, language: &str, imports: bool) -> (r: Vec<String>)
    ensures
        imports ==> views(r@) == import_lines(code@, language@),
        !imports ==> views(r@) == lines(code@).filter(|l: Seq<char>| !is_import_line(trim(l), lowercase_of(language@))),
{
    let lower = to_lowercase(language);
    let cs = chars_of(code);
    let ls = split_lines(&cs);
    let ghost all = char_views(ls@);
    let ghost pred = |l: Seq<char>| imports == is_import_line(trim(l), lowercase_of(language@));
    let mut r: Vec<String> = Vec::new();
    let mut i: usize = 0;
    while i < ls.len()
        invariant
            i <= ls@.len(),
            all == char_views(ls@),
            all == lines(code@),
            lower@ == lowercase_of(language@),
            pred == (|l: Seq<char>| imports == is_import_line(trim(l), lowercase_of(language@))),
            views(r@) == all.take(i as int).filter(pred),
        decreases ls.len() - i,
    {
        let t = trimmed(ls[i].as_slice());
        let found = is_import(&t, lower.as_str());
        let ghost before = views(r@);
        if found == imports {
            let line = string_of(ls[i].as_slice());
            r.push(line);
            assert(views(r@) =~= before.push(all[i as int]));
        }
        proof {
            let tk = all.take(i + 1);
            assert(tk.drop_last() =~= all.take(i as int));
            assert(tk.last() == all[i as int]);
            reveal(Seq::filter);
        }
        i = i + 1;
    }
    proof {
        assert(all.take(all.len() as int) =~= all);
        if imports {
            assert(pred =~= (|l: Seq<char>| is_import_line(trim(l), lowercase_of(language@))));
        } else {
            assert(pred =~= (|l: Seq<char>| !is_import_line(trim(l), lowercase_of(language@))));
        }
    }
    r
}

/// Extract import statements from code: its import lines, untrimmed.
pub fn extract_imports(code: &str, language: &str) -> (r: Vec<String>)
    ensures
        views(r@) == import_lines(code@, language@),
{
    select_lines(code, language, true)
}

/// Remove import statements from code (they are collected at the top).
pub fn remove_imports(code: &str, language: &str) -> (r: String)
    ensures
        r@ == without_imports(code@, language@),
{
    let kept = select_lines(code, language, false);
    let joined = join_strings(kept.as_slice(), "\n");
    let cs = chars_of(joined.as_str());
    let t = trimmed_start(&cs);
    string_of(&t)
}


// ============================================================================
// CODE ASSEMBLER EXECUTOR
// ============================================================================

/// Style for section separators.
#[derive(Debug, Clone, Copy, PartialEq, Eq, Structural)]
pub enum SeparatorStyle {
    /// No separators.
    NoSeparator,
    /// Simple comment line.
    Simple,
    /// Box-style comment.
    Box,
}

/// The header written before a section.
pub open spec fn section_text(style: SeparatorStyle, name: Seq<char>, language: Seq<char>) -> Seq<char> {
    let c = comment_prefix_text(lowercase_of(language));
    match style {
        SeparatorStyle::NoSeparator => Seq::empty(),
        SeparatorStyle::Simple => c + " === "@ + uppercase_of(name) + " ===\n\n"@,
        SeparatorStyle::Box => {
            let line = c + " "@ + repeat_char('=', 70);
            line + "\n"@ + c + " "@ + uppercase_of(name) + "\n"@ + line + "\n\n"@
        },
    }
}

/// The name a part's section is headed with: its section, else its name.
pub open spec fn section_name(p: CodePart) -> Seq<char> {
    match p.section {
        Some(s) => s@,
        None => p.name@,
    }
}

/// The import lines of all parts, part after part.
pub open spec fn all_imports(parts: Seq<CodePart>, language: Seq<char>) -> Seq<Seq<char>>
    decreases parts.len(),
{
    if parts.len() == 0 {
        Seq::empty()
    } else {
        all_imports(parts.drop_last(), language) + import_lines(parts.last().code@, language)
    }
}

/// Each import followed by a newline.
pub open spec fn import_block(imps: Seq<Seq<char>>) -> Seq<char>
    decreases imps.len(),
{
    if imps.len() == 0 {
        Seq::empty()
    } else {
        import_block(imps.drop_last()) + imps.last() + "\n"@
    }
}

/// Each part: its section header, its code without imports, a blank line.
pub open spec fn parts_text(parts: Seq<CodePart>, style: SeparatorStyle, language: Seq<char>) -> Seq<char>
    decreases parts.len(),
{
    if parts.len() == 0 {
        Seq::empty()
    } else {
        parts_text(parts.drop_last(), style, language) + section_text(style, section_name(parts.last()), language)
            + without_imports(parts.last().code@, language) + "\n\n"@
    }
}

/// The assembled code: the header and a blank line, if there is a header;
/// the distinct imports of all parts in order, and a blank line, if there
/// are any; each part; with trailing white space removed.
pub open spec fn assembled_text(
    header: Option<Seq<char>>,
    style: SeparatorStyle,
    parts: Seq<CodePart>,
    language: Seq<char>,
) -> Seq<char> {
    let head = match header {
        Some(h) => h + "\n\n"@,
        None => Seq::empty(),
    };
    let imps = sorted_unique(all_imports(parts, language));
    let block = if imps.len() == 0 { Seq::empty() } else { import_block(imps) + "\n"@ };
    trim_end(head + block + parts_text(parts, style, language))
}

/// Graph executor that merges code fragments.
pub struct CodeAssemblerExecutor {
    id: ExecutorId,
    /// Optional header to prepend.
    header: Option<String>,
    /// Section separator style.
    separator_style: SeparatorStyle,
}

impl CodeAssemblerExecutor {
    /// The executor's identifier.
    pub closed spec fn id_text(&self) -> Seq<char> {
        self.id@
    }

    /// The header prepended to the output.
    pub closed spec fn header_text(&self) -> Option<Seq<char>> {
        match self.header {
            Some(h) => Some(h@),
            None => None,
        }
    }

    /// The separator style.
    pub closed spec fn style(&self) -> SeparatorStyle {
        self.separator_style
    }

    /// A code assembler without a header, with box-style separators.
    pub fn new(id: impl TextLike) -> (r: Self)
        ensures
            r.id_text() == id.text(),
            r.header_text() is None,
            r.style() == SeparatorStyle::Box,
    {
        CodeAssemblerExecutor { id: ExecutorId::new(id), header: None, separator_style: SeparatorStyle::Box }
    }

    /// The same assembler with a header to prepend to the output.
    pub fn with_header(self, header: impl TextLike) -> (r: Self)
        ensures
            r.id_text() == self.id_text(),
            r.header_text() == Some(header.text()),
            r.style() == self.style(),
    {
        CodeAssemblerExecutor { id: self.id, header: Some(header.into_string()), separator_style: self.separator_style }
    }

    /// The same assembler with another separator style.
    pub fn with_separator_style(self, style: SeparatorStyle) -> (r: Self)
        ensures
            r.id_text() == self.id_text(),
            r.header_text() == self.header_text(),
            r.style() == style,
    {
        CodeAssemblerExecutor { id: self.id, header: self.header, separator_style: style }
    }

    /// The executor's identifier.
    pub fn id(&self) -> (r: &ExecutorId)
        ensures
            r@ == self.id_text(),
    {
        &self.id
    }

    /// An assembler is a worker.
    pub fn kind(&self) -> (r: ExecutorKind)
        ensures
            r == ExecutorKind::Worker,
    {
        ExecutorKind::Worker
    }

    /// The name it is logged under.
    pub fn name(&self) -> (r: &'static str)
        ensures
            r@ == "Code Assembler"@,
    {
        "Code Assembler"
    }

    /// What it does.
    pub fn description(&self) -> (r: Option<&'static str>)
        ensures
            r matches Some(d) && d@ == "Merges multiple code fragments into a single output"@,
    {
        Some("Merges multiple code fragments into a single output")
    }

    /// Format a section header.
    pub fn format_section(&self, name: &str, language: &str) -> (r: String)
        ensures
            r@ == section_text(self.style(), name@, language@),
    {
        match self.separator_style {
            SeparatorStyle::NoSeparator => String::new(),
            SeparatorStyle::Simple => {
                let comment = comment_prefix(language);
                let upper = to_uppercase(name);
                let mut s = String::new();
                append(&mut s, comment);
                append(&mut s, " === ");
                append(&mut s, upper.as_str());
                append(&mut s, " ===\n\n");
                s
            },
            SeparatorStyle::Box => {
                let comment = comment_prefix(language);
                let upper = to_uppercase(name);
                let mut line = String::new();
                append(&mut line, comment);
                append(&mut line, " ");
                let bar = repeat('=', 70);
                append(&mut line, bar.as_str());
                let mut s = String::new();
                append(&mut s, line.as_str());
                append(&mut s, "\n");
                append(&mut s, comment);
                append(&mut s, " ");
                append(&mut s, upper.as_str());
                append(&mut s, "\n");
                append(&mut s, line.as_str());
                append(&mut s, "\n\n");
                s
            },
        }
    }

    /// The distinct import lines of all parts, in order.
    fn collect_imports(&self, input: &AssemblyInput) -> (r: Vec<String>)
        ensures
            views(r@) == sorted_unique(all_imports(input.parts@, input.language@)),
    {
        let ghost lang = input.language@;
        let mut imports: Vec<String> = Vec::new();
        let mut i: usize = 0;
        assert(views(imports@) =~= Seq::<Seq<char>>::empty());
        while i < input.parts.len()
            invariant
                i <= input.parts@.len(),
                lang == input.language@,
                strictly_sorted(views(imports@)),
                views(imports@).to_set() == all_imports(input.parts@.take(i as int), lang).to_set(),
            decreases input.parts.len() - i,
        {
            let found = extract_imports(input.parts[i].code.as_str(), input.language.as_str());
            let ghost before = all_imports(input.parts@.take(i as int), lang);
            let ghost fv = views(found@);
            let mut j: usize = 0;
            while j < found.len()
                invariant
                    j <= found@.len(),
                    fv == views(found@),
                    strictly_sorted(views(imports@)),
                    views(imports@).to_set() == before.to_set() + fv.take(j as int).to_set(),
                decreases found.len() - j,
            {
                let ghost prev = views(imports@);
                insert_sorted(&mut imports, found[j].clone());
                proof {
                    assert(fv.take(j + 1) =~= fv.take(j as int) + seq![fv[j as int]]);
                    Seq::<Seq<char>>::lemma_to_set_insert_commutes(fv.take(j as int), fv[j as int]);
                    assert(fv.take(j + 1).to_set() =~= fv.take(j as int).to_set().insert(fv[j as int]));
                    assert(views(imports@).to_set() =~= before.to_set() + fv.take(j + 1).to_set());
                }
                j = j + 1;
            }
            proof {
                let t = input.parts@.take(i + 1);
                assert(t.drop_last() =~= input.parts@.take(i as int));
                assert(t.last() == input.parts@[i as int]);
                assert(fv.take(fv.len() as int) =~= fv);
                assert(all_imports(t, lang) == before + fv);
                assert forall|x: Seq<char>| (before + fv).contains(x) <==> before.contains(x) || fv.contains(x) by {
                    if (before + fv).contains(x) {
                        let k = choose|k: int| 0 <= k < (before + fv).len() && (before + fv)[k] == x;
                        if k < before.len() {
                            assert(before[k] == x);
                        } else {
                            assert(fv[k - before.len()] == x);
                        }
                    }
                    if before.contains(x) {
                        let k = choose|k: int| 0 <= k < before.len() && before[k] == x;
                        assert((before + fv)[k] == x);
                    }
                    if fv.contains(x) {
                        let k = choose|k: int| 0 <= k < fv.len() && fv[k] == x;
                        assert((before + fv)[before.len() + k] == x);
                    }
                }
                assert(views(imports@).to_set() =~= all_imports(t, lang).to_set());
            }
            i = i + 1;
        }
        proof {
            assert(input.parts@.take(input.parts@.len() as int) =~= input.parts@);
            let all = all_imports(input.parts@, lang);
            let chosen = sorted_unique(all);
            assert(strictly_sorted(chosen) && chosen.to_set() == all.to_set());
            lemma_sorted_unique_determined(views(imports@), chosen);
        }
        imports
    }

    /// Assemble all parts into a single code string.
    pub fn assemble_parts(&self, input: &AssemblyInput) -> (r: String)
        ensures
            r@ == assembled_text(self.header_text(), self.style(), input.parts@, input.language@),
    {
        let ghost lang = input.language@;
        let mut output = String::new();
        match &self.header {
            Some(h) => {
                append(&mut output, h.as_str());
                append(&mut output, "\n\n");
            },
            None => {},
        }
        let ghost head = output@;
        proof {
            reveal_strlit("\n");
        }
        let imports = self.collect_imports(input);
        let ghost imps = views(imports@);
        let mut k: usize = 0;
        while k < imports.len()
            invariant
                k <= imports@.len(),
                imps == views(imports@),
                output@ == head + import_block(imps.take(k as int)),
            decreases imports.len() - k,
        {
            append(&mut output, imports[k].as_str());
            push_char(&mut output, '\n');
            proof {
                reveal_strlit("\n");
                let t = imps.take(k + 1);
                assert(t.drop_last() =~= imps.take(k as int));
                assert(t.last() == imports@[k as int]@);
                assert(output@ =~= head + import_block(t));
            }
            k = k + 1;
        }
        assert(imps.take(imps.len() as int) =~= imps);
        if imports.len() > 0 {
            push_char(&mut output, '\n');
        }
        let ghost block = if imps.len() == 0 { Seq::<char>::empty() } else { import_block(imps) + "\n"@ };
        assert(output@ =~= head + block);
        let mut i: usize = 0;
        while i < input.parts.len()
            invariant
                i <= input.parts@.len(),
                lang == input.language@,
                output@ == head + block + parts_text(input.parts@.take(i as int), self.style(), lang),
            decreases input.parts.len() - i,
        {
            let part = &input.parts[i];
            let section_name_ref: &str = match &part.section {
                Some(s) => s.as_str(),
                None => part.name.as_str(),
            };
            let section = self.format_section(section_name_ref, input.language.as_str());
            append(&mut output, section.as_str());
            let code = remove_imports(part.code.as_str(), input.language.as_str());
            append(&mut output, code.as_str());
            append(&mut output, "\n\n");
            proof {
                let t = input.parts@.take(i + 1);
                assert(t.drop_last() =~= input.parts@.take(i as int));
                assert(t.last() == input.parts@[i as int]);
                assert(output@ =~= head + block + parts_text(t, self.style(), lang));
            }
            i = i + 1;
        }
        assert(input.parts@.take(input.parts@.len() as int) =~= input.parts@);
        let cs = chars_of(output.as_str());
        let t = trimmed_end(&cs);
        string_of(&t)
    }
}

} // verus!
