//! ONLYOFFICE JavaScript macro previews for VBA that the analyzer approved.
use vstd::prelude::*;
use crate::text::{
    append_str, byte_len, chars_of, decimal, decimal_string, ends_with, float_syntax, owned,
    parses_as_float, push_char, same_text, starts_with, string_of_range,
};
use crate::json_text::{json_quoted, json_string_literal};
use crate::vba_onlyoffice_analyze::{
    analyze_spec, analyze_vba_onlyoffice_migration, opt_view, operations_view, procedures_view,
    AnalysisModel, AnalyzeVbaOnlyofficeMigrationResult, AnalyzeVbaOperationSummary,
    AnalyzeVbaProcedureSummary, OperationModel, ProcedureModel,
};

verus! {

#[derive(Debug, Clone, PartialEq, Eq)]
pub struct TranslateVbaToOnlyofficeJsPreviewResult {
    pub macro_value: String,
    pub function_body: String,
    pub procedure_summaries: Vec<AnalyzeVbaProcedureSummary>,
    pub unsupported_operations: Vec<AnalyzeVbaOperationSummary>,
    pub redactions: Vec<String>,
    pub warnings: Vec<String>,
    pub success: bool,
}

pub struct PreviewModel {
    pub macro_value: Seq<char>,
    pub function_body: Seq<char>,
    pub procedure_summaries: Seq<ProcedureModel>,
    pub unsupported_operations: Seq<OperationModel>,
    pub redactions: Seq<Seq<char>>,
    pub warnings: Seq<Seq<char>>,
    pub success: bool,
}

impl View for TranslateVbaToOnlyofficeJsPreviewResult {
    type V = PreviewModel;

    open spec fn view(&self) -> PreviewModel {
        PreviewModel {
            macro_value: self.macro_value@,
            function_body: self.function_body@,
            procedure_summaries: procedures_view(self.procedure_summaries@),
            unsupported_operations: operations_view(self.unsupported_operations@),
            redactions: self.redactions.deep_view(),
            warnings: self.warnings.deep_view(),
            success: self.success,
        }
    }
}

/// A quoted literal without its quotes, as `value[1..len - 1]` gives it.
pub open spec fn is_quoted(value: Seq<char>) -> bool {
    starts_with(value, "\""@) && ends_with(value, "\""@) && byte_len(value) >= 2 && value.len()
        >= 2
}

pub open spec fn unquoted(value: Seq<char>) -> Seq<char> {
    value.subrange(1, value.len() - 1)
}

/// A rendered analyzer value as a JavaScript expression.
pub open spec fn js_value_spec(value: Seq<char>) -> Option<Seq<char>> {
    if value == "<redacted>"@ {
        None
    } else if is_quoted(value) {
        Some(json_quoted(unquoted(value)))
    } else if float_syntax(value) || value == "true"@ || value == "false"@ {
        Some(value)
    } else {
        None
    }
}

fn quoted_inner(value: &str) -> (r: Option<String>)
    ensures
        match r {
            Some(t) => is_quoted(value@) && t@ == unquoted(value@),
            None => !is_quoted(value@),
        },
{
    if !crate::text::starts_with_str(value, "\"") || !crate::text::ends_with_str(value, "\"")
        || value.len() < 2 {
        return None;
    }
    let v = chars_of(value);
    if v.len() < 2 {
        return None;
    }
    Some(string_of_range(&v, 1, v.len() - 1))
}

pub fn js_value(value: &str) -> (r: Option<String>)
    ensures
        opt_view(r) == js_value_spec(value@),
{
    if same_text(value, "<redacted>") {
        return None;
    }
    if let Some(inner) = quoted_inner(value) {
        return Some(json_string_literal(inner.as_str()));
    }
    if parses_as_float(value) || same_text(value, "true") || same_text(value, "false") {
        return Some(owned(value));
    }
    None
}

pub fn js_string(value: &str) -> (r: String)
    ensures
        r@ == json_quoted(value@),
{
    json_string_literal(value)
}

pub open spec fn js_number_or_string_spec(value: Seq<char>) -> Option<Seq<char>> {
    if float_syntax(value) {
        Some(value)
    } else if is_quoted(value) {
        Some(json_quoted(unquoted(value)))
    } else {
        None
    }
}

pub fn js_number_or_string(value: &str) -> (r: Option<String>)
    ensures
        opt_view(r) == js_number_or_string_spec(value@),
{
    if parses_as_float(value) {
        return Some(owned(value));
    }
    if let Some(inner) = quoted_inner(value) {
        return Some(json_string_literal(inner.as_str()));
    }
    None
}

/// `RGB(r, g, b)` as an ONLYOFFICE colour constructor call.
pub open spec fn js_color_spec(value: Seq<char>) -> Option<Seq<char>> {
    if starts_with(value, "RGB("@) && ends_with(value.skip(4), ")"@) {
        Some("Api.CreateColorFromRGB("@ + value.subrange(4, value.len() - 1) + ")"@)
    } else {
        None
    }
}

pub fn js_color(value: &str) -> (r: Option<String>)
    ensures
        opt_view(r) == js_color_spec(value@),
{
    let v = chars_of(value);
    proof {
        reveal_strlit("RGB(");
        reveal_strlit(")");
    }
    if !crate::text::starts_with_str(value, "RGB(") {
        return None;
    }
    let rest = string_of_range(&v, 4, v.len());
    assert(rest@ =~= value@.skip(4));
    if !crate::text::ends_with_str(rest.as_str(), ")") {
        return None;
    }
    let inner = string_of_range(&v, 4, v.len() - 1);
    let mut out = owned("Api.CreateColorFromRGB(");
    append_str(&mut out, inner.as_str());
    append_str(&mut out, ")");
    Some(out)
}

pub open spec fn call_line(prefix: Seq<char>, arg: Option<Seq<char>>) -> Option<Seq<char>> {
    match arg {
        Some(a) => Some(prefix + a + ");"@),
        None => None,
    }
}

/// The approved ONLYOFFICE statement for one supported operation.
pub open spec fn emit_operation_spec(op: OperationModel) -> Option<Seq<char>> {
    match op.value {
        None => None,
        Some(v) => {
            let o = op.operation;
            if o == "SetCellValue"@ {
                call_line("worksheet.GetActiveCell().SetValue("@, js_value_spec(v))
            } else if o == "SetCellFormula"@ {
                call_line("worksheet.GetActiveCell().SetFormulaArray("@, js_value_spec(v))
            } else if o == "SetFontBold"@ {
                call_line("Api.GetSelection().SetBold("@, js_value_spec(v))
            } else if o == "SetFontItalic"@ {
                call_line("Api.GetSelection().SetItalic("@, js_value_spec(v))
            } else if o == "SetFontName"@ {
                call_line("Api.GetSelection().SetFontName("@, js_value_spec(v))
            } else if o == "SetFontSize"@ {
                call_line("Api.GetSelection().SetFontSize("@, Some(json_quoted(v)))
            } else if o == "SetTextColor"@ {
                call_line("Api.GetSelection().SetFontColor("@, js_color_spec(v))
            } else if o == "SetFillColor"@ {
                call_line("Api.GetSelection().SetBackgroundColor("@, js_color_spec(v))
            } else if o == "SetNumberFormat"@ {
                call_line("Api.GetSelection().SetNumberFormat("@, js_value_spec(v))
            } else if o == "SetWrap"@ {
                call_line("Api.GetSelection().SetWrap("@, js_value_spec(v))
            } else if o == "SetAlignHorizontal"@ {
                call_line("Api.GetSelection().SetAlignHorizontal("@, js_number_or_string_spec(v))
            } else if o == "SetAlignVertical"@ {
                call_line("Api.GetSelection().SetAlignVertical("@, js_number_or_string_spec(v))
            } else {
                None
            }
        },
    }
}

fn call_text(prefix: &str, arg: Option<String>) -> (r: Option<String>)
    ensures
        opt_view(r) == call_line(prefix@, opt_view(arg)),
{
    match arg {
        Some(a) => {
            let mut out = owned(prefix);
            append_str(&mut out, a.as_str());
            append_str(&mut out, ");");
            Some(out)
        },
        None => None,
    }
}

pub fn emit_operation(operation: &AnalyzeVbaOperationSummary) -> (r: Option<String>)
    ensures
        opt_view(r) == emit_operation_spec(operation@),
{
    let value = match &operation.value {
        Some(v) => v.as_str(),
        None => return None,
    };
    let o = operation.operation.as_str();
    if same_text(o, "SetCellValue") {
        call_text("worksheet.GetActiveCell().SetValue(", js_value(value))
    } else if same_text(o, "SetCellFormula") {
        call_text("worksheet.GetActiveCell().SetFormulaArray(", js_value(value))
    } else if same_text(o, "SetFontBold") {
        call_text("Api.GetSelection().SetBold(", js_value(value))
    } else if same_text(o, "SetFontItalic") {
        call_text("Api.GetSelection().SetItalic(", js_value(value))
    } else if same_text(o, "SetFontName") {
        call_text("Api.GetSelection().SetFontName(", js_value(value))
    } else if same_text(o, "SetFontSize") {
        call_text("Api.GetSelection().SetFontSize(", Some(js_string(value)))
    } else if same_text(o, "SetTextColor") {
        call_text("Api.GetSelection().SetFontColor(", js_color(value))
    } else if same_text(o, "SetFillColor") {
        call_text("Api.GetSelection().SetBackgroundColor(", js_color(value))
    } else if same_text(o, "SetNumberFormat") {
        call_text("Api.GetSelection().SetNumberFormat(", js_value(value))
    } else if same_text(o, "SetWrap") {
        call_text("Api.GetSelection().SetWrap(", js_value(value))
    } else if same_text(o, "SetAlignHorizontal") {
        call_text("Api.GetSelection().SetAlignHorizontal(", js_number_or_string(value))
    } else if same_text(o, "SetAlignVertical") {
        call_text("Api.GetSelection().SetAlignVertical(", js_number_or_string(value))
    } else {
        None
    }
}

/// `procedure:line` for each supported operation whose value was redacted.
pub open spec fn redactions_spec(ops: Seq<OperationModel>) -> Seq<Seq<char>>
    decreases ops.len(),
{
    if ops.len() == 0 {
        Seq::empty()
    } else {
        let rest = redactions_spec(ops.drop_last());
        let op = ops.last();
        if op.value == Some("<redacted>"@) {
            rest.push(op.procedure + ":"@ + decimal(op.line))
        } else {
            rest
        }
    }
}

pub fn collect_redactions(analysis: &AnalyzeVbaOnlyofficeMigrationResult) -> (r: Vec<String>)
    ensures
        r.deep_view() == redactions_spec(analysis@.supported_operations),
{
    let ops = &analysis.supported_operations;
    let ghost ov = operations_view(ops@);
    let mut out: Vec<String> = Vec::new();
    let mut i: usize = 0;
    while i < ops.len()
        invariant
            i <= ops@.len(),
            ov == operations_view(ops@),
            ov == analysis@.supported_operations,
            out.deep_view() == redactions_spec(ov.take(i as int)),
        decreases ops@.len() - i,
    {
        assert(ov.take(i + 1).drop_last() =~= ov.take(i as int));
        let op = &ops[i];
        let redacted = match &op.value {
            Some(v) => same_text(v.as_str(), "<redacted>"),
            None => false,
        };
        if redacted {
            let mut entry = op.procedure.clone();
            append_str(&mut entry, ":");
            append_str(&mut entry, decimal_string(op.line).as_str());
            let ghost before = out.deep_view();
            out.push(entry);
            assert(out.deep_view() =~= before.push(entry@));
        }
        i += 1;
    }
    assert(ov.take(i as int) =~= ov);
    out
}

/// Lines joined with a separator between consecutive lines.
pub open spec fn join_seq(lines: Seq<Seq<char>>, sep: Seq<char>) -> Seq<char>
    decreases lines.len(),
{
    if lines.len() == 0 {
        Seq::empty()
    } else if lines.len() == 1 {
        lines[0]
    } else {
        join_seq(lines.drop_last(), sep) + sep + lines.last()
    }
}

pub fn join_lines(lines: &Vec<String>, sep: &str) -> (r: String)
    ensures
        r@ == join_seq(lines.deep_view(), sep@),
{
    let ghost lv = lines.deep_view();
    let mut out = String::new();
    let mut i: usize = 0;
    while i < lines.len()
        invariant
            i <= lines@.len(),
            lv == lines.deep_view(),
            out@ == join_seq(lv.take(i as int), sep@),
        decreases lines@.len() - i,
    {
        assert(lv.take(i + 1).drop_last() =~= lv.take(i as int));
        if i > 0 {
            append_str(&mut out, sep);
        }
        append_str(&mut out, lines[i].as_str());
        i += 1;
        assert(lv.take(i as int).last() == lv[i - 1]);
        if i == 1 {
            assert(out@ =~= join_seq(lv.take(1), sep@));
        }
    }
    assert(lv.take(i as int) =~= lv);
    out
}

/// The statements of the macro body for the supported operations, or the
/// name of the first operation that has no approved mapping.
pub open spec fn emitted_lines(ops: Seq<OperationModel>) -> Result<Seq<Seq<char>>, Seq<char>>
    decreases ops.len(),
{
    if ops.len() == 0 {
        Ok(seq!["    let worksheet = Api.GetActiveSheet();"@, "    let workbook = Api.GetActiveWorkbook();"@])
    } else {
        match emitted_lines(ops.drop_last()) {
            Err(e) => Err(e),
            Ok(lines) => match emit_operation_spec(ops.last()) {
                None => Err(ops.last().operation),
                Some(line) => Ok(lines.push("    "@ + line)),
            },
        }
    }
}

pub open spec fn withheld(a: AnalysisModel, redactions: Seq<Seq<char>>, warnings: Seq<Seq<char>>) -> PreviewModel {
    PreviewModel {
        macro_value: Seq::empty(),
        function_body: Seq::empty(),
        procedure_summaries: a.procedures,
        unsupported_operations: a.unsupported_operations,
        redactions,
        warnings,
        success: false,
    }
}

pub open spec fn macro_text(body: Seq<char>) -> Seq<char> {
    "(function()\n{\n"@ + body + "\n})();"@
}

/// The preview for an analysis: emitted only when the analysis succeeded
/// with no warnings, no unsupported operation and no redaction, every
/// operation has an approved mapping, and the macro fits in 8192 bytes.
pub open spec fn translate_analyzed_spec(a: AnalysisModel) -> PreviewModel {
    let redactions = redactions_spec(a.supported_operations);
    if !a.success || a.requires_manual_rewrite || a.unsupported_operations.len() > 0
        || a.warnings.len() > 0 || redactions.len() > 0 {
        withheld(a, redactions, if a.warnings.len() == 0 {
            seq!["ONLYOFFICE macro preview was not emitted because analyzer output is not fully safe."@]
        } else {
            a.warnings
        })
    } else {
        match emitted_lines(a.supported_operations) {
            Err(op) => withheld(a, redactions, a.warnings.push(
                "ONLYOFFICE macro preview was not emitted because operation "@ + op
                    + " has no approved mapping."@,
            )),
            Ok(lines) => {
                let body = join_seq(lines, "\n"@);
                let macro_value = macro_text(body);
                if byte_len(macro_value) > 8192 {
                    withheld(a, redactions, a.warnings.push("ONLYOFFICE macro preview exceeded 8192 characters."@))
                } else {
                    PreviewModel {
                        macro_value,
                        function_body: body,
                        procedure_summaries: a.procedures,
                        unsupported_operations: a.unsupported_operations,
                        redactions,
                        warnings: a.warnings,
                        success: true,
                    }
                }
            },
        }
    }
}

pub fn non_emitting_result(analysis: AnalyzeVbaOnlyofficeMigrationResult, redactions: Vec<String>, warnings: Vec<String>) -> (r: TranslateVbaToOnlyofficeJsPreviewResult)
    ensures
        r@ == withheld(analysis@, redactions.deep_view(), warnings.deep_view()),
{
    TranslateVbaToOnlyofficeJsPreviewResult {
        macro_value: String::new(),
        function_body: String::new(),
        procedure_summaries: analysis.procedures,
        unsupported_operations: analysis.unsupported_operations,
        redactions,
        warnings,
        success: false,
    }
}

pub fn copy_strings(v: &Vec<String>) -> (r: Vec<String>)
    ensures
        r.deep_view() == v.deep_view(),
{
    let mut out: Vec<String> = Vec::new();
    let mut i: usize = 0;
    while i < v.len()
        invariant
            i <= v@.len(),
            out.deep_view() == v.deep_view().take(i as int),
        decreases v@.len() - i,
    {
        let c = v[i].clone();
        assert(c@ == v.deep_view()[i as int]);
        let ghost before = out.deep_view();
        out.push(c);
        assert(out.deep_view() =~= before.push(c@));
        assert(v.deep_view().take(i + 1) =~= v.deep_view().take(i as int).push(v.deep_view()[i as int]));
        i += 1;
        assert(out.deep_view() =~= v.deep_view().take(i as int));
    }
    assert(v.deep_view().take(i as int) =~= v.deep_view());
    out
}

pub fn translate_analyzed_vba_to_onlyoffice_js_preview(analysis: AnalyzeVbaOnlyofficeMigrationResult) -> (r: TranslateVbaToOnlyofficeJsPreviewResult)
    ensures
        r@ == translate_analyzed_spec(analysis@),
{
    let redactions = collect_redactions(&analysis);
    let mut warnings = copy_strings(&analysis.warnings);
    if !analysis.success || analysis.requires_manual_rewrite || analysis.unsupported_operations.len() > 0
        || warnings.len() > 0 || redactions.len() > 0 {
        if warnings.len() == 0 {
            warnings.push(owned("ONLYOFFICE macro preview was not emitted because analyzer output is not fully safe."));
            assert(warnings.deep_view() =~= seq!["ONLYOFFICE macro preview was not emitted because analyzer output is not fully safe."@]);
        }
        return non_emitting_result(analysis, redactions, warnings);
    }
    let ghost ops = analysis@.supported_operations;
    let mut body_lines: Vec<String> = Vec::new();
    body_lines.push(owned("    let worksheet = Api.GetActiveSheet();"));
    body_lines.push(owned("    let workbook = Api.GetActiveWorkbook();"));
    assert(body_lines.deep_view() =~= seq!["    let worksheet = Api.GetActiveSheet();"@, "    let workbook = Api.GetActiveWorkbook();"@]);
    assert(ops.take(0) =~= Seq::<OperationModel>::empty());
    let mut i: usize = 0;
    while i < analysis.supported_operations.len()
        invariant
            i <= analysis.supported_operations@.len(),
            ops == analysis@.supported_operations,
            warnings.deep_view() == analysis@.warnings,
            redactions.deep_view() == redactions_spec(ops),
            analysis@.success,
            !analysis@.requires_manual_rewrite,
            analysis@.unsupported_operations.len() == 0,
            analysis@.warnings.len() == 0,
            redactions_spec(ops).len() == 0,
            emitted_lines(ops.take(i as int)) == Ok::<Seq<Seq<char>>, Seq<char>>(body_lines.deep_view()),
        decreases analysis.supported_operations@.len() - i,
    {
        assert(ops.take(i + 1).drop_last() =~= ops.take(i as int));
        assert(ops[i as int] == analysis.supported_operations@[i as int]@);
        match emit_operation(&analysis.supported_operations[i]) {
            None => {
                let mut w = owned("ONLYOFFICE macro preview was not emitted because operation ");
                append_str(&mut w, analysis.supported_operations[i].operation.as_str());
                append_str(&mut w, " has no approved mapping.");
                let ghost before = warnings.deep_view();
                warnings.push(w);
                assert(warnings.deep_view() =~= before.push(w@));
                assert(emitted_lines(ops.take(i + 1)) == Err::<Seq<Seq<char>>, Seq<char>>(ops[i as int].operation));
                proof {
                    lemma_emitted_prefix_err(ops, i as int + 1);
                }
                return non_emitting_result(analysis, redactions, warnings);
            },
            Some(line) => {
                let mut l = owned("    ");
                append_str(&mut l, line.as_str());
                let ghost before = body_lines.deep_view();
                body_lines.push(l);
                assert(body_lines.deep_view() =~= before.push(l@));
            },
        }
        i += 1;
    }
    assert(ops.take(i as int) =~= ops);
    let function_body = join_lines(&body_lines, "\n");
    let mut macro_value = owned("(function()\n{\n");
    append_str(&mut macro_value, function_body.as_str());
    append_str(&mut macro_value, "\n})();");
    if macro_value.as_str().len() > 8192 {
        let ghost before = warnings.deep_view();
        warnings.push(owned("ONLYOFFICE macro preview exceeded 8192 characters."));
        assert(warnings.deep_view() =~= before.push("ONLYOFFICE macro preview exceeded 8192 characters."@));
        return non_emitting_result(analysis, redactions, warnings);
    }
    TranslateVbaToOnlyofficeJsPreviewResult {
        macro_value,
        function_body,
        procedure_summaries: analysis.procedures,
        unsupported_operations: analysis.unsupported_operations,
        redactions,
        warnings,
        success: true,
    }
}

/// A failure in a prefix of the operations is the failure of the whole list.
pub proof fn lemma_emitted_prefix_err(ops: Seq<OperationModel>, k: int)
    requires
        0 <= k <= ops.len(),
        emitted_lines(ops.take(k)) is Err,
    ensures
        emitted_lines(ops) == emitted_lines(ops.take(k)),
    decreases ops.len() - k,
{
    if k < ops.len() {
        assert(ops.take(k + 1).drop_last() =~= ops.take(k));
        lemma_emitted_prefix_err(ops, k + 1);
    } else {
        assert(ops.take(k) =~= ops);
    }
}

pub open spec fn translate_spec(source: Seq<char>) -> PreviewModel {
    translate_analyzed_spec(analyze_spec(source))
}

pub fn translate_vba_to_onlyoffice_js_preview(source_text: &str, source_name: Option<&str>) -> (r: TranslateVbaToOnlyofficeJsPreviewResult)
    ensures
        r@ == translate_spec(source_text@),
{
    let analysis = analyze_vba_onlyoffice_migration(source_text, source_name);
    translate_analyzed_vba_to_onlyoffice_js_preview(analysis)
}

/// The preview fails closed: a macro is emitted only for an analysis that
/// succeeded with no manual rewrite, no unsupported operation, no warning
/// and no redaction, and then it is the body wrapped in a function call and
/// fits in 8192 bytes; a withheld preview has no macro and no body, and at
/// least one warning says why. Procedures and unsupported operations are
/// always those of the analysis.
pub proof fn law_preview_fails_closed(a: AnalysisModel)
    ensures
        ({
            let p = translate_analyzed_spec(a);
            &&& p.procedure_summaries == a.procedures
            &&& p.unsupported_operations == a.unsupported_operations
            &&& p.success ==> {
                &&& a.success
                &&& !a.requires_manual_rewrite
                &&& a.unsupported_operations.len() == 0
                &&& a.warnings.len() == 0
                &&& p.warnings.len() == 0
                &&& p.redactions.len() == 0
                &&& p.macro_value == macro_text(p.function_body)
                &&& byte_len(p.macro_value) <= 8192
            }
            &&& !p.success ==> {
                &&& p.macro_value.len() == 0
                &&& p.function_body.len() == 0
                &&& p.warnings.len() > 0
            }
        }),
{
}

/// The same holds of a preview made straight from source text.
pub proof fn law_source_preview_fails_closed(source: Seq<char>)
    ensures
        translate_spec(source).success ==> analyze_spec(source).success && translate_spec(source).redactions.len() == 0,
        !translate_spec(source).success ==> translate_spec(source).macro_value.len() == 0,
{
    law_preview_fails_closed(analyze_spec(source));
}

proof fn lemma_mantissa_starts(m: Seq<char>)
    requires
        crate::text::mantissa_ok(m),
    ensures
        m.len() > 0 && (crate::text::is_ascii_digit(m[0]) || m[0] == '.'),
{
    crate::text::lemma_index_of_from_bounds(m, '.', 0);
    match crate::text::index_of(m, '.') {
        Some(k) => {
            if k > 0 {
                assert(crate::text::is_ascii_digit(m.take(k)[0]));
            }
        },
        None => {
            assert(crate::text::is_ascii_digit(m[0]));
        },
    }
}

proof fn lemma_number_starts(u: Seq<char>)
    requires
        crate::text::number_ok(u),
    ensures
        u.len() > 0 && (crate::text::is_ascii_digit(u[0]) || u[0] == '.'),
{
    crate::text::lemma_index_of_from_bounds(u, 'e', 0);
    match crate::text::index_of(u, 'e') {
        Some(k) => {
            lemma_mantissa_starts(u.take(k));
            assert(u.take(k)[0] == u[0]);
        },
        None => {
            lemma_mantissa_starts(u);
        },
    }
}

/// Text that reads as a number is not empty and starts neither with a
/// quote nor with `<`.
proof fn lemma_number_text_start(v: Seq<char>)
    requires
        float_syntax(v),
    ensures
        v.len() > 0,
        v[0] != '"',
        v[0] != '<',
{
    reveal_strlit("inf");
    reveal_strlit("infinity");
    reveal_strlit("nan");
    let l = crate::text::lower_seq(v);
    let u = crate::text::drop_sign(l);
    if v.len() == 0 {
        assert(u.len() == 0);
        if crate::text::number_ok(u) {
            lemma_number_starts(u);
        }
    } else if v[0] == '"' || v[0] == '<' {
        assert(l[0] == v[0]);
        assert(u == l);
        assert(u[0] == v[0]);
        assert(u != "inf"@ && u != "infinity"@ && u != "nan"@) by {
            assert("inf"@[0] == 'i' && "infinity"@[0] == 'i' && "nan"@[0] == 'n');
        }
        if crate::text::number_ok(u) {
            lemma_number_starts(u);
        }
    }
}

/// A value that reads as a number is handed to the JavaScript preview as
/// itself, unquoted, both where a value and where a number or string is taken.
pub proof fn law_numbers_stay_numbers(value: Seq<char>)
    requires
        float_syntax(value),
    ensures
        js_value_spec(value) == Some(value),
        js_number_or_string_spec(value) == Some(value),
{
    lemma_number_text_start(value);
    reveal_strlit("<redacted>");
    reveal_strlit("\"");
    assert(value != "<redacted>"@) by {
        assert("<redacted>"@[0] == '<');
    }
    if is_quoted(value) {
        assert(value.take(1) == "\""@);
        assert(value.take(1)[0] == value[0]);
    }
}

proof fn lemma_digits_have_no(s: Seq<char>, c: char, i: int)
    requires
        crate::text::all_digits(s),
        !crate::text::is_ascii_digit(c),
    ensures
        crate::text::index_of_from(s, c, i) is None,
    decreases s.len() - i,
{
    if 0 <= i < s.len() {
        assert(crate::text::is_ascii_digit(s[i]));
        lemma_digits_have_no(s, c, i + 1);
    }
}

/// A whole number written in decimal digits, with or without a minus sign,
/// is handed to the JavaScript preview as itself, unquoted.
pub proof fn law_whole_numbers_stay_numbers(digits: Seq<char>, negative: bool)
    requires
        digits.len() > 0,
        crate::text::all_digits(digits),
    ensures
        ({
            let value = if negative { seq!['-'] + digits } else { digits };
            &&& js_value_spec(value) == Some(value)
            &&& js_number_or_string_spec(value) == Some(value)
        }),
{
    let value = if negative { seq!['-'] + digits } else { digits };
    let l = crate::text::lower_seq(value);
    assert(l =~= value) by {
        assert forall|i: int| 0 <= i < value.len() implies #[trigger] l[i] == value[i] by {
            if negative && i == 0 {
            } else if negative {
                assert(value[i] == digits[i - 1]);
                assert(crate::text::is_ascii_digit(digits[i - 1]));
            } else {
                assert(crate::text::is_ascii_digit(digits[i]));
            }
        }
    }
    let u = crate::text::drop_sign(l);
    if negative {
        assert(u =~= digits);
    } else {
        assert(crate::text::is_ascii_digit(digits[0]));
        assert(u == digits);
    }
    reveal_strlit("inf");
    reveal_strlit("infinity");
    reveal_strlit("nan");
    assert(crate::text::is_ascii_digit(digits[0]));
    assert(digits != "inf"@ && digits != "infinity"@ && digits != "nan"@) by {
        assert("inf"@[0] == 'i' && "infinity"@[0] == 'i' && "nan"@[0] == 'n');
    }
    lemma_digits_have_no(digits, 'e', 0);
    lemma_digits_have_no(digits, '.', 0);
    assert(crate::text::mantissa_ok(digits));
    assert(crate::text::number_ok(digits));
    assert(float_syntax(value));
    law_numbers_stay_numbers(value);
}

} // verus!
