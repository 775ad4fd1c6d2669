//! The workbook connection inventory and the warnings it derives: query
//! names loaded both as a workbook connection and into the data model, and
//! connection kinds that are only reported as metadata.
use vstd::prelude::*;
use crate::text::{decimal, decimal_string, owned, append_str, same_text};
use crate::powerquery_extract::{
    PowerQueryLoadTargetHint, PowerQueryWorkbookConnectionSummary, WorkbookConnectionInventory,
};
use crate::sorted_text::{strictly_sorted, insert_sorted};
use crate::workbook_external_links::{push_warning, push_warning_spec};

verus! {

#[derive(Debug, Clone, PartialEq, Eq)]
pub struct InspectWorkbookConnectionsResult {
    pub mode: String,
    pub path: String,
    pub connection_count: usize,
    pub connections: Vec<PowerQueryWorkbookConnectionSummary>,
    pub warnings: Vec<String>,
}

pub open spec fn ov(o: Option<String>) -> Option<Seq<char>> {
    match o {
        Some(s) => Some(s@),
        None => None,
    }
}

/// Some connection with query-name hint `q` loads to `target`.
pub open spec fn has_hint(conns: Seq<PowerQueryWorkbookConnectionSummary>, q: Seq<char>, target: PowerQueryLoadTargetHint) -> bool {
    exists|i: int| 0 <= i < conns.len() && ov(#[trigger] conns[i].query_name_hint) == Some(q) && conns[i].load_target_hint == target
}

/// The query-name hints that load both as a workbook connection and into the data model.
pub open spec fn ambiguous_hints(conns: Seq<PowerQueryWorkbookConnectionSummary>) -> Set<Seq<char>> {
    Set::new(
        |q: Seq<char>|
            has_hint(conns, q, PowerQueryLoadTargetHint::WorkbookConnection) && has_hint(
                conns,
                q,
                PowerQueryLoadTargetHint::DataModel,
            ),
    )
}

/// The ambiguous hints that one of the first `i` connections carries.
pub open spec fn seen_ambiguous(conns: Seq<PowerQueryWorkbookConnectionSummary>, i: int) -> Set<Seq<char>> {
    Set::new(
        |q: Seq<char>|
            ambiguous_hints(conns).contains(q) && exists|j: int|
                0 <= j < i && ov(#[trigger] conns[j].query_name_hint) == Some(q),
    )
}

pub open spec fn ambiguous_warning(q: Seq<char>) -> Seq<char> {
    "query-name hint `"@ + q + "` maps to both workbook_connection and data_model load targets"@
}

/// `warnings` after pushing the warning of each name in order.
pub open spec fn push_each(warnings: Seq<Seq<char>>, names: Seq<Seq<char>>) -> Seq<Seq<char>>
    decreases names.len(),
{
    if names.len() == 0 {
        warnings
    } else {
        push_warning_spec(push_each(warnings, names.drop_last()), ambiguous_warning(names.last()))
    }
}

fn hint_loads_to(connections: &Vec<PowerQueryWorkbookConnectionSummary>, q: &str, target: PowerQueryLoadTargetHint) -> (r: bool)
    ensures
        r == has_hint(connections@, q@, target),
{
    let mut i: usize = 0;
    while i < connections.len()
        invariant
            i <= connections@.len(),
            forall|j: int|
                0 <= j < i ==> !(ov(#[trigger] connections@[j].query_name_hint) == Some(q@)
                    && connections@[j].load_target_hint == target),
        decreases connections@.len() - i,
    {
        let c = &connections[i];
        if let Some(h) = &c.query_name_hint {
            if same_text(h.as_str(), q) && c.load_target_hint == target {
                return true;
            }
        }
        i += 1;
    }
    false
}

pub fn push_ambiguous_load_target_warnings(connections: &Vec<PowerQueryWorkbookConnectionSummary>, warnings: &mut Vec<String>)
    ensures
        exists|names: Seq<Seq<char>>|
            strictly_sorted(names) && names.to_set() == ambiguous_hints(connections@)
                && final(warnings).deep_view() == push_each(old(warnings).deep_view(), names),
{
    let ghost cv = connections@;
    let mut names: Vec<String> = Vec::new();
    let mut i: usize = 0;
    assert(names.deep_view().to_set() =~= seen_ambiguous(cv, 0));
    while i < connections.len()
        invariant
            cv == connections@,
            i <= cv.len(),
            strictly_sorted(names.deep_view()),
            names.deep_view().to_set() == seen_ambiguous(cv, i as int),
        decreases cv.len() - i,
    {
        let ghost before = names.deep_view().to_set();
        match &connections[i].query_name_hint {
            Some(h) => {
                let wc = hint_loads_to(connections, h.as_str(), PowerQueryLoadTargetHint::WorkbookConnection);
                let dm = hint_loads_to(connections, h.as_str(), PowerQueryLoadTargetHint::DataModel);
                if wc && dm {
                    insert_sorted(&mut names, h.clone());
                    assert(seen_ambiguous(cv, i + 1) =~= before.insert(h@)) by {
                        assert forall|q: Seq<char>| #[trigger] seen_ambiguous(cv, i + 1).contains(q) implies before.insert(h@).contains(q) by {
                            let j = choose|j: int| 0 <= j < i + 1 && ov(#[trigger] cv[j].query_name_hint) == Some(q);
                            if j < i {
                                assert(seen_ambiguous(cv, i as int).contains(q));
                            }
                        }
                        assert(ov(cv[i as int].query_name_hint) == Some(h@));
                        assert forall|q: Seq<char>| before.insert(h@).contains(q) implies #[trigger] seen_ambiguous(cv, i + 1).contains(q) by {
                            if q != h@ {
                                let j = choose|j: int| 0 <= j < i && ov(#[trigger] cv[j].query_name_hint) == Some(q);
                                assert(0 <= j < i + 1);
                            }
                        }
                    }
                } else {
                    assert(seen_ambiguous(cv, i + 1) =~= before) by {
                        assert forall|q: Seq<char>| #[trigger] seen_ambiguous(cv, i + 1).contains(q) implies before.contains(q) by {
                            let j = choose|j: int| 0 <= j < i + 1 && ov(#[trigger] cv[j].query_name_hint) == Some(q);
                            if j == i {
                                assert(ov(cv[i as int].query_name_hint) == Some(h@));
                                assert(q == h@);
                            }
                        }
                        assert forall|q: Seq<char>| before.contains(q) implies #[trigger] seen_ambiguous(cv, i + 1).contains(q) by {
                            let j = choose|j: int| 0 <= j < i && ov(#[trigger] cv[j].query_name_hint) == Some(q);
                            assert(0 <= j < i + 1);
                        }
                    }
                }
            },
            None => {
                assert(seen_ambiguous(cv, i + 1) =~= before) by {
                    assert forall|q: Seq<char>| #[trigger] seen_ambiguous(cv, i + 1).contains(q) implies before.contains(q) by {
                        let j = choose|j: int| 0 <= j < i + 1 && ov(#[trigger] cv[j].query_name_hint) == Some(q);
                        if j == i {
                            assert(ov(cv[i as int].query_name_hint) is None);
                        }
                    }
                    assert forall|q: Seq<char>| before.contains(q) implies #[trigger] seen_ambiguous(cv, i + 1).contains(q) by {
                        let j = choose|j: int| 0 <= j < i && ov(#[trigger] cv[j].query_name_hint) == Some(q);
                        assert(0 <= j < i + 1);
                    }
                }
            },
        }
        i += 1;
    }
    assert(names.deep_view().to_set() =~= ambiguous_hints(cv)) by {
        assert forall|q: Seq<char>| ambiguous_hints(cv).contains(q) implies #[trigger] seen_ambiguous(cv, cv.len() as int).contains(q) by {
            let j = choose|j: int|
                0 <= j < cv.len() && ov(#[trigger] cv[j].query_name_hint) == Some(q)
                    && cv[j].load_target_hint == PowerQueryLoadTargetHint::WorkbookConnection;
            assert(ov(cv[j].query_name_hint) == Some(q));
        }
    }
    let ghost nv = names.deep_view();
    let ghost w0 = warnings.deep_view();
    let mut k: usize = 0;
    while k < names.len()
        invariant
            nv == names.deep_view(),
            k <= nv.len(),
            warnings.deep_view() == push_each(w0, nv.take(k as int)),
        decreases nv.len() - k,
    {
        assert(nv.take(k + 1).drop_last() =~= nv.take(k as int));
        assert(names@[k as int]@ == nv[k as int]);
        let mut w = owned("query-name hint `");
        append_str(&mut w, names[k].as_str());
        append_str(&mut w, "` maps to both workbook_connection and data_model load targets");
        push_warning(warnings, w);
        k += 1;
    }
    assert(nv.take(nv.len() as int) =~= nv);
}

/// The label of the `index`-th connection: its name, else its id, else its position.
pub open spec fn connection_label(c: PowerQueryWorkbookConnectionSummary, index: nat) -> Seq<char> {
    match (ov(c.name), ov(c.id)) {
        (Some(n), _) => n,
        (None, Some(i)) => i,
        (None, None) => "entry "@ + decimal(index + 1),
    }
}

/// A connection without location or query name that neither loads into
/// the data model nor is an OLE DB query connection (type 100).
pub open spec fn unsupported_kind(c: PowerQueryWorkbookConnectionSummary) -> bool {
    c.location is None && c.query_name_hint is None && c.load_target_hint != PowerQueryLoadTargetHint::DataModel
        && ov(c.connection_type) != Some("100"@)
}

pub open spec fn unsupported_warning(c: PowerQueryWorkbookConnectionSummary, index: nat) -> Seq<char> {
    let kind = match ov(c.connection_type) {
        Some(t) => t,
        None => "unknown"@,
    };
    "workbook connection `"@ + connection_label(c, index) + "` uses unsupported connection kind `"@ + kind
        + "`; only bounded offline metadata is reported"@
}

pub open spec fn unsupported_fold(warnings: Seq<Seq<char>>, conns: Seq<PowerQueryWorkbookConnectionSummary>, k: nat) -> Seq<Seq<char>>
    decreases k,
{
    if k == 0 {
        warnings
    } else {
        let prev = unsupported_fold(warnings, conns, (k - 1) as nat);
        if unsupported_kind(conns[k - 1]) {
            push_warning_spec(prev, unsupported_warning(conns[k - 1], (k - 1) as nat))
        } else {
            prev
        }
    }
}

pub fn push_unsupported_connection_kind_warnings(connections: &Vec<PowerQueryWorkbookConnectionSummary>, warnings: &mut Vec<String>)
    ensures
        final(warnings).deep_view() == unsupported_fold(old(warnings).deep_view(), connections@, connections@.len() as nat),
{
    let ghost w0 = warnings.deep_view();
    let mut index: usize = 0;
    while index < connections.len()
        invariant
            index <= connections@.len(),
            warnings.deep_view() == unsupported_fold(w0, connections@, index as nat),
        decreases connections@.len() - index,
    {
        let c = &connections[index];
        let is_100 = match &c.connection_type {
            Some(t) => same_text(t.as_str(), "100"),
            None => false,
        };
        if c.location.is_none() && c.query_name_hint.is_none() && c.load_target_hint != PowerQueryLoadTargetHint::DataModel
            && !is_100 {
            let mut w = owned("workbook connection `");
            match (&c.name, &c.id) {
                (Some(n), _) => append_str(&mut w, n.as_str()),
                (None, Some(i)) => append_str(&mut w, i.as_str()),
                (None, None) => {
                    append_str(&mut w, "entry ");
                    let d = decimal_string(index + 1);
                    append_str(&mut w, d.as_str());
                },
            }
            append_str(&mut w, "` uses unsupported connection kind `");
            match &c.connection_type {
                Some(t) => append_str(&mut w, t.as_str()),
                None => append_str(&mut w, "unknown"),
            }
            append_str(&mut w, "`; only bounded offline metadata is reported");
            assert(w@ =~= unsupported_warning(connections@[index as int], index as nat));
            push_warning(warnings, w);
        }
        index += 1;
    }
}

/// The connection inventory of a workbook, with the derived warnings added.
pub fn inspect_workbook_connections_from_workbook(inventory: WorkbookConnectionInventory, display_path: &str) -> (r: InspectWorkbookConnectionsResult)
    ensures
        r.mode@ == "read_only_inspection"@,
        r.path@ == display_path@,
        r.connection_count == inventory.connection_count,
        r.connections@ == inventory.connections@,
        exists|names: Seq<Seq<char>>|
            strictly_sorted(names) && names.to_set() == ambiguous_hints(inventory.connections@)
                && r.warnings.deep_view() == unsupported_fold(
                push_each(inventory.warnings.deep_view(), names),
                inventory.connections@,
                inventory.connections@.len() as nat,
            ),
{
    let WorkbookConnectionInventory { connection_count, connections, mut warnings } = inventory;
    push_ambiguous_load_target_warnings(&connections, &mut warnings);
    push_unsupported_connection_kind_warnings(&connections, &mut warnings);
    InspectWorkbookConnectionsResult {
        mode: owned("read_only_inspection"),
        path: owned(display_path),
        connection_count,
        connections,
        warnings,
    }
}

} // verus!
