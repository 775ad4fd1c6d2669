//! The defined-name inventory of an Open XML workbook and its warnings.
use vstd::prelude::*;
use crate::text::{decimal, decimal_string, owned, append_str};
use crate::tool::{DefinedNameSummary, WorkbookFormat};
use crate::workbook_external_links::{push_warning, push_warning_spec};

verus! {

pub const MAX_DEFINED_NAME_CHARS: usize = 512;

#[derive(Debug, Clone, PartialEq, Eq)]
pub struct InspectWorkbookDefinedNamesResult {
    pub mode: String,
    pub path: String,
    pub defined_name_count: usize,
    pub defined_names: Vec<DefinedNameSummary>,
    pub defined_names_sample: Vec<String>,
    pub inventory_truncated: bool,
    pub warnings: Vec<String>,
}

/// What reading `xl/workbook.xml` found about defined names.
pub struct WorkbookDefinedNameContext {
    pub defined_name_count: usize,
    pub defined_names: Vec<DefinedNameSummary>,
    pub defined_names_sample: Vec<String>,
    pub truncated_defined_name_targets: usize,
    pub unresolved_sheet_scope_count: usize,
}

/// The warnings for a truncated inventory, truncated targets and scopes
/// that name no sheet, each pushed unless the list is full or holds it.
pub open spec fn defined_name_warnings_spec(
    warnings: Seq<Seq<char>>,
    defined_name_count: nat,
    reported: nat,
    truncated_targets: nat,
    unresolved_scopes: nat,
) -> Seq<Seq<char>> {
    let w = if defined_name_count > reported {
        push_warning_spec(
            warnings,
            "defined name inventory truncated to "@ + decimal(reported) + " of "@ + decimal(defined_name_count)
                + " names"@,
        )
    } else {
        warnings
    };
    let w = if truncated_targets > 0 {
        push_warning_spec(
            w,
            decimal(truncated_targets) + " defined name targets truncated to 512 characters"@,
        )
    } else {
        w
    };
    if unresolved_scopes > 0 {
        push_warning_spec(
            w,
            decimal(unresolved_scopes) + " defined names kept unresolved localSheetId values without matching sheet names"@,
        )
    } else {
        w
    }
}

pub fn push_defined_name_warnings(
    defined_name_count: usize,
    reported_defined_name_count: usize,
    truncated_defined_name_targets: usize,
    unresolved_sheet_scope_count: usize,
    warnings: &mut Vec<String>,
)
    ensures
        final(warnings).deep_view() == defined_name_warnings_spec(
            old(warnings).deep_view(),
            defined_name_count as nat,
            reported_defined_name_count as nat,
            truncated_defined_name_targets as nat,
            unresolved_sheet_scope_count as nat,
        ),
{
    if defined_name_count > reported_defined_name_count {
        let mut w = owned("defined name inventory truncated to ");
        let r = decimal_string(reported_defined_name_count);
        append_str(&mut w, r.as_str());
        append_str(&mut w, " of ");
        let c = decimal_string(defined_name_count);
        append_str(&mut w, c.as_str());
        append_str(&mut w, " names");
        push_warning(warnings, w);
    }
    if truncated_defined_name_targets > 0 {
        let mut w = decimal_string(truncated_defined_name_targets);
        append_str(&mut w, " defined name targets truncated to 512 characters");
        push_warning(warnings, w);
    }
    if unresolved_sheet_scope_count > 0 {
        let mut w = decimal_string(unresolved_sheet_scope_count);
        append_str(&mut w, " defined names kept unresolved localSheetId values without matching sheet names");
        push_warning(warnings, w);
    }
}

pub open spec fn format_refusal(format: WorkbookFormat) -> Option<Seq<char>> {
    match format {
        WorkbookFormat::Xlsb => Some(
            "excel.inspect_workbook_defined_names supports only .xlsx and .xlsm in this stage; .xlsb defined-name inventory remains unsupported"@,
        ),
        WorkbookFormat::Unknown => Some("excel.inspect_workbook_defined_names supports only .xlsx and .xlsm in this stage"@),
        _ => None,
    }
}

/// The defined-name inventory of a workbook of the given format, from what
/// reading its `xl/workbook.xml` gave (which is only read for `.xlsx` and `.xlsm`).
pub fn inspect_workbook_defined_names_from_workbook(
    format: WorkbookFormat,
    display_path: &str,
    context: Result<WorkbookDefinedNameContext, String>,
) -> (r: Result<InspectWorkbookDefinedNamesResult, String>)
    ensures
        match format_refusal(format) {
            Some(message) => r matches Err(e) && e@ == message,
            None => match context {
                Err(e) => r matches Err(f) && f@ == e@,
                Ok(c) => r matches Ok(res) && {
                    &&& res.mode@ == "read_only_inspection"@
                    &&& res.path@ == display_path@
                    &&& res.defined_name_count == c.defined_name_count
                    &&& res.defined_names@ == c.defined_names@
                    &&& res.defined_names_sample@ == c.defined_names_sample@
                    &&& res.inventory_truncated == (c.defined_name_count > c.defined_names@.len())
                    &&& res.warnings.deep_view() == defined_name_warnings_spec(
                        Seq::empty(),
                        c.defined_name_count as nat,
                        c.defined_names@.len(),
                        c.truncated_defined_name_targets as nat,
                        c.unresolved_sheet_scope_count as nat,
                    )
                },
            },
        },
{
    match format {
        WorkbookFormat::Xlsb => {
            return Err(owned(
                "excel.inspect_workbook_defined_names supports only .xlsx and .xlsm in this stage; .xlsb defined-name inventory remains unsupported",
            ));
        },
        WorkbookFormat::Unknown => {
            return Err(owned("excel.inspect_workbook_defined_names supports only .xlsx and .xlsm in this stage"));
        },
        _ => {},
    }
    let c = match context {
        Ok(c) => c,
        Err(e) => return Err(e),
    };
    let mut warnings: Vec<String> = Vec::new();
    assert(warnings.deep_view() =~= Seq::<Seq<char>>::empty());
    push_defined_name_warnings(
        c.defined_name_count,
        c.defined_names.len(),
        c.truncated_defined_name_targets,
        c.unresolved_sheet_scope_count,
        &mut warnings,
    );
    let inventory_truncated = c.defined_name_count > c.defined_names.len();
    Ok(InspectWorkbookDefinedNamesResult {
        mode: owned("read_only_inspection"),
        path: owned(display_path),
        defined_name_count: c.defined_name_count,
        defined_names: c.defined_names,
        defined_names_sample: c.defined_names_sample,
        inventory_truncated,
        warnings,
    })
}

} // verus!
