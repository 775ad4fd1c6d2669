//! Heuristic translation of VBA data-access code into a Power Query M preview.
//!
//! The translator reads pasted VBA line by line, follows ADODB connection
//! strings, SQL text assembled in string variables and recordset or command
//! calls, and emits one M query per distinct SQL statement together with a
//! copy of the VBA in which the data-access lines are commented out.
use vstd::prelude::*;
use std::collections::BTreeSet;
use crate::text::{
    is_ws, lower_seq, trim_seq, trim_end_seq, contains_seq, ends_with, bounded_seq, str_lines,
    decimal, unescape_quotes, escape_quotes, chars_of, push_char, string_of_range, string_of,
    lower_string, trim, trim_end, ends_with_str, contains_str, eq_ignore_ascii_case, owned,
    append_str, decimal_string, unescape_quote_pairs, escape_quote_chars, lines_of, same_text,
};
use crate::pattern::{
    regex_captures_of, regex_matches, regex_replace_first, regex_replace_every, regex_escape_seq,
    captures_view, groups_view, group_text, group_at, regex_captures, regex_is_match,
    regex_replace, regex_replace_all, regex_escape, group_string, group_opt,
};

verus! {

pub const MAX_SOURCE_CHARS: usize = 32768;

pub const MAX_OUTPUT_CHARS: usize = 8192;

pub const MAX_QUERY_COUNT: usize = 8;

pub const MAX_QUERY_CODE_CHARS: usize = 4096;

pub const MAX_WARNINGS: usize = 16;

/// Case-insensitive (ASCII) substring test; an empty value contains nothing.
pub open spec fn contains_ci_spec(value: Seq<char>, fragment: Seq<char>) -> bool {
    value.len() > 0 && contains_seq(lower_seq(value), lower_seq(fragment))
}

pub fn contains_ci(value: &str, fragment: &str) -> (r: bool)
    ensures
        r == contains_ci_spec(value@, fragment@),
{
    if value.unicode_len() == 0 {
        return false;
    }
    let v = lower_string(value);
    let f = lower_string(fragment);
    contains_str(v.as_str(), f.as_str())
}

pub fn normalize_identifier(value: &str) -> (r: String)
    ensures
        r@ == lower_seq(value@),
{
    lower_string(value)
}

pub open spec fn is_sql_variable_spec(variable: Seq<char>) -> bool {
    contains_ci_spec(variable, "sql"@) || contains_ci_spec(variable, "query"@) || contains_ci_spec(
        variable,
        "command"@,
    )
}

pub fn is_sql_variable(variable: &str) -> (r: bool)
    ensures
        r == is_sql_variable_spec(variable@),
{
    contains_ci(variable, "sql") || contains_ci(variable, "query") || contains_ci(variable, "command")
}

pub open spec fn looks_like_connection_string_spec(value: Seq<char>) -> bool {
    contains_ci_spec(value, "Provider="@) || contains_ci_spec(value, "Data Source="@)
        || contains_ci_spec(value, "Server="@) || contains_ci_spec(value, "DSN="@)
}

pub fn looks_like_connection_string(value: &str) -> (r: bool)
    ensures
        r == looks_like_connection_string_spec(value@),
{
    contains_ci(value, "Provider=") || contains_ci(value, "Data Source=") || contains_ci(
        value,
        "Server=",
    ) || contains_ci(value, "DSN=")
}

pub open spec fn sql_lookup_pattern() -> Seq<char> {
    r"(?i)\b(select|with|insert|update|delete)\b"@
}

/// Non-blank text that mentions an SQL statement keyword as a whole word.
pub open spec fn looks_like_sql_spec(value: Seq<char>) -> bool {
    trim_seq(value).len() > 0 && regex_matches(sql_lookup_pattern(), value)
}

pub fn looks_like_sql(value: &str) -> (r: bool)
    ensures
        r == looks_like_sql_spec(value@),
{
    let t = trim(value);
    if t.unicode_len() == 0 {
        return false;
    }
    regex_is_match(r"(?i)\b(select|with|insert|update|delete)\b", value)
}

pub open spec fn whitespace_pattern() -> Seq<char> {
    r"\s+"@
}

/// Runs of whitespace collapsed to one space, then trimmed.
pub open spec fn normalize_sql_spec(sql: Seq<char>) -> Seq<char> {
    trim_seq(regex_replace_every(whitespace_pattern(), sql, " "@))
}

pub fn normalize_sql(sql: &str) -> (r: String)
    ensures
        r@ == normalize_sql_spec(sql@),
{
    let collapsed = regex_replace_all(r"\s+", sql, " ");
    trim(collapsed.as_str())
}

pub fn unescape_vba_string(value: &str) -> (r: String)
    ensures
        r@ == unescape_quotes(value@),
{
    unescape_quote_pairs(value)
}

pub fn escape_m_string(value: &str) -> (r: String)
    ensures
        r@ == escape_quotes(value@),
{
    escape_quote_chars(value)
}

pub open spec fn first_non_empty_spec(first: Seq<char>, second: Seq<char>) -> Seq<char> {
    if trim_seq(first).len() > 0 {
        first
    } else {
        second
    }
}

pub fn first_non_empty(first: String, second: &str) -> (r: String)
    ensures
        r@ == first_non_empty_spec(first@, second@),
{
    let t = trim(first.as_str());
    if t.unicode_len() > 0 {
        first
    } else {
        owned(second)
    }
}

pub open spec fn sanitize_pattern() -> Seq<char> {
    r"[^A-Za-z0-9_]"@
}

/// A sanitized name: `Query` in place of an empty one.
pub open spec fn name_or_default(cleaned: Seq<char>) -> Seq<char> {
    if cleaned.len() == 0 {
        "Query"@
    } else {
        cleaned
    }
}

/// Every character outside `[A-Za-z0-9_]` replaced by `_`; `Query` for an empty name.
pub open spec fn sanitize_name_spec(value: Seq<char>) -> Seq<char> {
    name_or_default(regex_replace_every(sanitize_pattern(), value, "_"@))
}

/// The name once its disallowed characters were replaced: `Query` when
/// nothing is left.
pub fn name_or_query(cleaned: String) -> (r: String)
    ensures
        r@ == name_or_default(cleaned@),
{
    if cleaned.unicode_len() == 0 {
        owned("Query")
    } else {
        cleaned
    }
}

pub fn sanitize_name(value: &str) -> (r: String)
    ensures
        r@ == sanitize_name_spec(value@),
{
    let cleaned = regex_replace_all(r"[^A-Za-z0-9_]", value, "_");
    name_or_query(cleaned)
}

/// The pattern that finds `key=value` in a `;`-separated connection string.
pub open spec fn connection_value_pattern(key: Seq<char>) -> Seq<char> {
    r"(?:^|;)\s*"@ + regex_escape_seq(key) + r"\s*=\s*([^;]*)"@
}

/// The trimmed value that a match of the connection-value pattern
/// captured, empty when there was no match or no value.
pub open spec fn connection_value_of_captures(captures: Option<Seq<Option<Seq<char>>>>) -> Seq<char> {
    match captures {
        Some(g) => match group_at(g, 1) {
            Some(t) => trim_seq(t),
            None => Seq::empty(),
        },
        None => Seq::empty(),
    }
}

/// The trimmed value of `key` in a connection string, empty when absent.
pub open spec fn connection_value_spec(connection_string: Seq<char>, key: Seq<char>) -> Seq<char> {
    if trim_seq(connection_string).len() == 0 {
        Seq::empty()
    } else {
        connection_value_of_captures(regex_captures_of(connection_value_pattern(key), connection_string))
    }
}

/// The value that a match of the connection-value pattern captured, trimmed.
pub fn connection_value_from_captures(captures: Option<Vec<Option<String>>>) -> (r: String)
    ensures
        r@ == connection_value_of_captures(captures_view(captures)),
{
    match captures {
        Some(groups) => match group_opt(&groups, 1) {
            Some(value) => trim(value.as_str()),
            None => String::new(),
        },
        None => String::new(),
    }
}

pub fn get_connection_value(connection_string: &str, key: &str) -> (r: String)
    ensures
        r@ == connection_value_spec(connection_string@, key@),
{
    let t = trim(connection_string);
    if t.unicode_len() == 0 {
        return String::new();
    }
    let mut pattern = owned(r"(?:^|;)\s*");
    let escaped = regex_escape(key);
    append_str(&mut pattern, escaped.as_str());
    append_str(&mut pattern, r"\s*=\s*([^;]*)");
    let captures = regex_captures(pattern.as_str(), connection_string);
    connection_value_from_captures(captures)
}


/// The data source expression of the generated M for a connection string:
/// Access for ACE/Jet providers or a `DBQ` path, ODBC for a DSN or the
/// MSDASQL provider, SQL Server otherwise (with placeholders for what is missing).
pub open spec fn build_source_spec(c: Seq<char>) -> Seq<char> {
    if trim_seq(c).len() == 0 {
        "Sql.Database(\"SERVER\", \"DATABASE\")"@
    } else {
        let provider = connection_value_spec(c, "Provider"@);
        let data_source = connection_value_spec(c, "Data Source"@);
        let server = first_non_empty_spec(connection_value_spec(c, "Server"@), data_source);
        let database = first_non_empty_spec(
            connection_value_spec(c, "Initial Catalog"@),
            connection_value_spec(c, "Database"@),
        );
        let dsn = connection_value_spec(c, "DSN"@);
        let dbq = connection_value_spec(c, "DBQ"@);
        if contains_ci_spec(provider, "Microsoft.ACE"@) || contains_ci_spec(provider, "Microsoft.Jet"@)
            || trim_seq(dbq).len() > 0 {
            "Access.Database(File.Contents(\""@ + escape_quotes(first_non_empty_spec(dbq, data_source))
                + "\"), [CreateNavigationProperties=true])"@
        } else if trim_seq(dsn).len() > 0 {
            "Odbc.DataSource(\"dsn="@ + escape_quotes(dsn) + "\")"@
        } else if contains_ci_spec(provider, "MSDASQL"@) {
            "Odbc.DataSource(\""@ + escape_quotes(c) + "\")"@
        } else {
            let s = if trim_seq(server).len() == 0 {
                "SERVER"@
            } else {
                server
            };
            let d = if trim_seq(database).len() == 0 {
                "DATABASE"@
            } else {
                database
            };
            "Sql.Database(\""@ + escape_quotes(s) + "\", \""@ + escape_quotes(d) + "\")"@
        }
    }
}

fn quoted_call(head: &str, arg: &str, tail: &str) -> (r: String)
    ensures
        r@ == head@ + escape_quotes(arg@) + tail@,
{
    let mut out = owned(head);
    let e = escape_m_string(arg);
    append_str(&mut out, e.as_str());
    append_str(&mut out, tail);
    out
}

pub fn build_source_expression(connection_string: &str) -> (r: String)
    ensures
        r@ == build_source_spec(connection_string@),
{
    let t = trim(connection_string);
    if t.unicode_len() == 0 {
        return owned("Sql.Database(\"SERVER\", \"DATABASE\")");
    }
    let provider = get_connection_value(connection_string, "Provider");
    let data_source = get_connection_value(connection_string, "Data Source");
    let server = first_non_empty(get_connection_value(connection_string, "Server"), data_source.as_str());
    let database = first_non_empty(
        get_connection_value(connection_string, "Initial Catalog"),
        get_connection_value(connection_string, "Database").as_str(),
    );
    let dsn = get_connection_value(connection_string, "DSN");
    let dbq = get_connection_value(connection_string, "DBQ");
    let dbq_trimmed = trim(dbq.as_str());
    if contains_ci(provider.as_str(), "Microsoft.ACE") || contains_ci(provider.as_str(), "Microsoft.Jet")
        || dbq_trimmed.unicode_len() > 0 {
        let path = first_non_empty(dbq, data_source.as_str());
        return quoted_call("Access.Database(File.Contents(\"", path.as_str(), "\"), [CreateNavigationProperties=true])");
    }
    let dsn_trimmed = trim(dsn.as_str());
    if dsn_trimmed.unicode_len() > 0 {
        return quoted_call("Odbc.DataSource(\"dsn=", dsn.as_str(), "\")");
    }
    if contains_ci(provider.as_str(), "MSDASQL") {
        return quoted_call("Odbc.DataSource(\"", connection_string, "\")");
    }
    let server_trimmed = trim(server.as_str());
    let server = if server_trimmed.unicode_len() == 0 {
        owned("SERVER")
    } else {
        server
    };
    let database_trimmed = trim(database.as_str());
    let database = if database_trimmed.unicode_len() == 0 {
        owned("DATABASE")
    } else {
        database
    };
    let mut out = quoted_call("Sql.Database(\"", server.as_str(), "\", \"");
    let d = escape_m_string(database.as_str());
    append_str(&mut out, d.as_str());
    append_str(&mut out, "\")");
    out
}

/// Splitting `v` at `sep` from position `i` on, outside double-quoted strings
/// (where `""` is an escaped quote) and outside parentheses; `depth` is the
/// parenthesis depth and `start` where the current piece began.
pub open spec fn split_from(v: Seq<char>, sep: char, i: int, start: int, depth: int, in_string: bool) -> Seq<Seq<char>>
    decreases v.len() - i,
{
    if i < 0 || i >= v.len() {
        seq![v.subrange(start, v.len() as int)]
    } else if v[i] == '\'' && !in_string {
        split_from(v, sep, i + 1, start, depth, in_string)
    } else if v[i] == '"' {
        if in_string && i + 1 < v.len() && v[i + 1] == '"' {
            split_from(v, sep, i + 2, start, depth, in_string)
        } else {
            split_from(v, sep, i + 1, start, depth, !in_string)
        }
    } else if in_string {
        split_from(v, sep, i + 1, start, depth, in_string)
    } else if v[i] == '(' {
        split_from(v, sep, i + 1, start, depth + 1, in_string)
    } else if v[i] == ')' {
        split_from(v, sep, i + 1, start, depth - 1, in_string)
    } else if v[i] == sep && depth == 0 {
        seq![v.subrange(start, i)] + split_from(v, sep, i + 1, i + 1, depth, in_string)
    } else {
        split_from(v, sep, i + 1, start, depth, in_string)
    }
}

/// The pieces of `value` between top-level occurrences of `separator`.
pub open spec fn split_top_level_spec(value: Seq<char>, separator: char) -> Seq<Seq<char>> {
    split_from(value, separator, 0, 0, 0, false)
}

pub fn split_top_level(value: &str, separator: char) -> (r: Vec<String>)
    ensures
        r.deep_view() == split_top_level_spec(value@, separator),
{
    let v = chars_of(value);
    let mut result: Vec<String> = Vec::new();
    let mut start: usize = 0;
    let mut opens: usize = 0;
    let mut closes: usize = 0;
    let mut in_string = false;
    let mut index: usize = 0;
    while index < v.len()
        invariant
            v@ == value@,
            index <= v@.len(),
            start <= index,
            opens <= index,
            closes <= index,
            result.deep_view() + split_from(v@, separator, index as int, start as int, opens - closes, in_string)
                == split_top_level_spec(value@, separator),
        decreases v@.len() - index,
    {
        let ch = v[index];
        if ch == '\'' && !in_string {
            index += 1;
        } else if ch == '"' {
            if in_string && index + 1 < v.len() && v[index + 1] == '"' {
                index += 2;
            } else {
                in_string = !in_string;
                index += 1;
            }
        } else if in_string {
            index += 1;
        } else if ch == '(' {
            opens += 1;
            index += 1;
        } else if ch == ')' {
            closes += 1;
            index += 1;
        } else if ch == separator && opens == closes {
            let piece = string_of_range(&v, start, index);
            let ghost before = result.deep_view();
            let ghost rest = split_from(v@, separator, index + 1, index + 1, opens - closes, in_string);
            result.push(piece);
            assert(result.deep_view() =~= before.push(piece@));
            assert(before + (seq![piece@] + rest) =~= before.push(piece@) + rest);
            index += 1;
            start = index;
        } else {
            index += 1;
        }
    }
    let last = string_of_range(&v, start, v.len());
    let ghost before = result.deep_view();
    result.push(last);
    assert(result.deep_view() =~= before.push(last@));
    result
}


/// The pieces joined back together with `sep` between each two.
pub open spec fn join_with(pieces: Seq<Seq<char>>, sep: char) -> Seq<char>
    decreases pieces.len(),
{
    if pieces.len() == 0 {
        Seq::empty()
    } else if pieces.len() == 1 {
        pieces[0]
    } else {
        pieces[0] + seq![sep] + join_with(pieces.skip(1), sep)
    }
}

proof fn lemma_split_from_rejoins(v: Seq<char>, sep: char, i: int, start: int, depth: int, in_string: bool)
    requires
        0 <= start <= i <= v.len(),
    ensures
        split_from(v, sep, i, start, depth, in_string).len() >= 1,
        join_with(split_from(v, sep, i, start, depth, in_string), sep) == v.subrange(start, v.len() as int),
    decreases v.len() - i,
{
    if i >= v.len() {
    } else if v[i] == '\'' && !in_string {
        lemma_split_from_rejoins(v, sep, i + 1, start, depth, in_string);
    } else if v[i] == '"' {
        if in_string && i + 1 < v.len() && v[i + 1] == '"' {
            lemma_split_from_rejoins(v, sep, i + 2, start, depth, in_string);
        } else {
            lemma_split_from_rejoins(v, sep, i + 1, start, depth, !in_string);
        }
    } else if in_string {
        lemma_split_from_rejoins(v, sep, i + 1, start, depth, in_string);
    } else if v[i] == '(' {
        lemma_split_from_rejoins(v, sep, i + 1, start, depth + 1, in_string);
    } else if v[i] == ')' {
        lemma_split_from_rejoins(v, sep, i + 1, start, depth - 1, in_string);
    } else if v[i] == sep && depth == 0 {
        lemma_split_from_rejoins(v, sep, i + 1, i + 1, depth, in_string);
        let rest = split_from(v, sep, i + 1, i + 1, depth, in_string);
        let all = seq![v.subrange(start, i)] + rest;
        assert(all.skip(1) =~= rest);
        assert(all[0] == v.subrange(start, i));
        assert(v.subrange(start, i) + seq![sep] + v.subrange(i + 1, v.len() as int) =~= v.subrange(
            start,
            v.len() as int,
        ));
    } else {
        lemma_split_from_rejoins(v, sep, i + 1, start, depth, in_string);
    }
}

/// Splitting at top-level separators loses nothing: there is always at
/// least one piece, and joining the pieces with the separator gives the
/// value back.
pub proof fn law_split_top_level_rejoins(value: Seq<char>, separator: char)
    ensures
        split_top_level_spec(value, separator).len() >= 1,
        join_with(split_top_level_spec(value, separator), separator) == value,
{
    lemma_split_from_rejoins(value, separator, 0, 0, 0, false);
    assert(value.subrange(0, value.len() as int) =~= value);
}

pub open spec fn select_columns_pattern() -> Seq<char> {
    r"(?is)select\s+(.*?)\s+from\s"@
}

pub open spec fn alias_suffix_pattern() -> Seq<char> {
    r"(?i)\s+as\s+.+$"@
}

/// Position of the last `c` in `s`.
pub open spec fn last_index_of(s: Seq<char>, c: char) -> Option<int>
    decreases s.len(),
{
    if s.len() == 0 {
        None
    } else if s.last() == c {
        Some(s.len() - 1)
    } else {
        last_index_of(s.drop_last(), c)
    }
}

/// What follows the last `.` of `s`, or `s` itself without a dot.
pub open spec fn after_last_dot(s: Seq<char>) -> Seq<char> {
    match last_index_of(s, '.') {
        Some(k) => s.skip(k + 1),
        None => s,
    }
}

pub open spec fn is_column_quote(c: char) -> bool {
    c == '[' || c == ']' || c == '"' || c == '`' || c == ' '
}

pub open spec fn strip_quotes_start(s: Seq<char>) -> Seq<char>
    decreases s.len(),
{
    if s.len() > 0 && is_column_quote(s[0]) {
        strip_quotes_start(s.drop_first())
    } else {
        s
    }
}

pub open spec fn strip_quotes_end(s: Seq<char>) -> Seq<char>
    decreases s.len(),
{
    if s.len() > 0 && is_column_quote(s.last()) {
        strip_quotes_end(s.drop_last())
    } else {
        s
    }
}

/// The column name that one item of a select list stands for: its alias
/// dropped, its table prefix dropped, its brackets and quotes stripped.
pub open spec fn column_of(raw: Seq<char>) -> Seq<char> {
    strip_quotes_end(
        strip_quotes_start(
            after_last_dot(regex_replace_first(alias_suffix_pattern(), trim_seq(raw), ""@)),
        ),
    )
}

pub open spec fn keep_column(c: Seq<char>) -> bool {
    c.len() > 0 && !c.contains('(')
}

pub open spec fn columns_fold(parts: Seq<Seq<char>>) -> Seq<Seq<char>>
    decreases parts.len(),
{
    if parts.len() == 0 {
        Seq::empty()
    } else {
        let prev = columns_fold(parts.drop_last());
        if keep_column(column_of(parts.last())) {
            prev.push(column_of(parts.last()))
        } else {
            prev
        }
    }
}

/// The plain column names of a `SELECT ... FROM` list; none for `*`, for a
/// `TOP` clause or when the text has no such list.
pub open spec fn extract_select_columns_spec(sql: Seq<char>) -> Seq<Seq<char>> {
    match regex_captures_of(select_columns_pattern(), sql) {
        None => Seq::empty(),
        Some(g) => select_list_columns(group_text(g, 1)),
    }
}

/// The plain column names of a select list (the text between `SELECT`
/// and `FROM`); none for `*` or a `TOP` clause.
pub open spec fn select_list_columns(list_raw: Seq<char>) -> Seq<Seq<char>> {
    let list = trim_seq(list_raw);
    if list == "*"@ || crate::text::starts_with(lower_seq(list), "top "@) {
        Seq::empty()
    } else {
        columns_fold(split_top_level_spec(list, ','))
    }
}

fn after_last_dot_of(s: &str) -> (r: String)
    ensures
        r@ == after_last_dot(s@),
{
    let v = chars_of(s);
    let mut i: usize = v.len();
    assert(v@.take(i as int) =~= v@);
    while i > 0 && v[i - 1] != '.'
        invariant
            v@ == s@,
            i <= v@.len(),
            last_index_of(v@, '.') == last_index_of(v@.take(i as int), '.'),
        decreases i,
    {
        assert(v@.take(i as int).drop_last() =~= v@.take(i - 1));
        i -= 1;
    }
    if i == 0 {
        assert(v@.take(0) =~= Seq::<char>::empty());
        string_of(&v)
    } else {
        assert(v@.take(i as int).last() == '.');
        assert(v@.take(i as int).len() == i);
        assert(v@.skip(i as int) =~= v@.subrange(i as int, v@.len() as int));
        string_of_range(&v, i, v.len())
    }
}

fn strip_column_quotes(s: &str) -> (r: String)
    ensures
        r@ == strip_quotes_end(strip_quotes_start(s@)),
{
    let v = chars_of(s);
    let mut i: usize = 0;
    assert(v@.skip(0) =~= v@);
    while i < v.len() && (v[i] == '[' || v[i] == ']' || v[i] == '"' || v[i] == '`' || v[i] == ' ')
        invariant
            v@ == s@,
            i <= v@.len(),
            strip_quotes_start(v@) == strip_quotes_start(v@.skip(i as int)),
        decreases v@.len() - i,
    {
        assert(v@.skip(i as int).drop_first() =~= v@.skip(i + 1));
        i += 1;
    }
    let mut j: usize = v.len();
    assert(v@.skip(i as int) =~= v@.subrange(i as int, j as int));
    while j > i && (v[j - 1] == '[' || v[j - 1] == ']' || v[j - 1] == '"' || v[j - 1] == '`' || v[j - 1] == ' ')
        invariant
            v@ == s@,
            i <= j <= v@.len(),
            strip_quotes_start(v@) == v@.skip(i as int),
            strip_quotes_end(v@.skip(i as int)) == strip_quotes_end(v@.subrange(i as int, j as int)),
        decreases j,
    {
        assert(v@.subrange(i as int, j as int).drop_last() =~= v@.subrange(i as int, j - 1));
        j -= 1;
    }
    string_of_range(&v, i, j)
}

fn column_from_item(raw: &str) -> (r: String)
    ensures
        r@ == column_of(raw@),
{
    let t = trim(raw);
    let no_alias = regex_replace(r"(?i)\s+as\s+.+$", t.as_str(), "");
    let tail = after_last_dot_of(no_alias.as_str());
    strip_column_quotes(tail.as_str())
}

pub fn extract_select_columns(sql: &str) -> (r: Vec<String>)
    ensures
        r.deep_view() == extract_select_columns_spec(sql@),
{
    match regex_captures(r"(?is)select\s+(.*?)\s+from\s", sql) {
        Some(groups) => {
            let list_raw = group_string(&groups, 1);
            select_columns_from_list(list_raw.as_str())
        },
        None => Vec::new(),
    }
}

/// The plain column names of a select list.
pub fn select_columns_from_list(list_raw: &str) -> (r: Vec<String>)
    ensures
        r.deep_view() == select_list_columns(list_raw@),
{
    let mut columns: Vec<String> = Vec::new();
    let list = trim(list_raw);
    let lowered = lower_string(list.as_str());
    if same_text(list.as_str(), "*") || crate::text::starts_with_str(lowered.as_str(), "top ") {
        return columns;
    }
    let parts = split_top_level(list.as_str(), ',');
    let ghost pv = parts.deep_view();
    let mut i: usize = 0;
    assert(columns.deep_view() =~= columns_fold(pv.take(0)));
    while i < parts.len()
        invariant
            pv == parts.deep_view(),
            i <= parts@.len(),
            columns.deep_view() == columns_fold(pv.take(i as int)),
        decreases parts@.len() - i,
    {
        assert(pv.take(i + 1).drop_last() =~= pv.take(i as int));
        assert(pv.take(i + 1).last() == pv[i as int]);
        let column = column_from_item(parts[i].as_str());
        let cv = chars_of(column.as_str());
        let has_paren = crate::text::find_char(&cv, '(');
        proof {
            crate::text::lemma_index_of_from_bounds(cv@, '(', 0);
        }
        if column.unicode_len() > 0 && has_paren.is_none() {
            let ghost before = columns.deep_view();
            columns.push(column);
            assert(columns.deep_view() =~= before.push(column_of(pv[i as int])));
        } else {
            assert(!keep_column(column_of(pv[i as int]))) by {
                if has_paren.is_some() {
                    let k = crate::text::index_of(cv@, '(').unwrap();
                    assert(cv@[k] == '(');
                }
            }
        }
        i += 1;
    }
    assert(pv.take(parts@.len() as int) =~= pv);
    columns
}


/// The column names as an M list body: each quoted, separated by `, `.
pub open spec fn quoted_columns(cols: Seq<Seq<char>>) -> Seq<char>
    decreases cols.len(),
{
    if cols.len() == 0 {
        Seq::empty()
    } else {
        let prev = quoted_columns(cols.drop_last());
        let sep = if cols.len() > 1 {
            ", "@
        } else {
            Seq::empty()
        };
        prev + sep + "\""@ + escape_quotes(cols.last()) + "\""@
    }
}

/// The M query for one SQL statement: a native query against the data
/// source of the connection string, narrowed to the selected columns when
/// the statement names them.
pub open spec fn generate_m_spec(sql: Seq<char>, connection_string: Seq<char>) -> Seq<char> {
    let columns = extract_select_columns_spec(sql);
    let head = "let\n"@ + "    Source = "@ + build_source_spec(connection_string) + ",\n"@
        + "    QueryResult = Value.NativeQuery(Source, \""@ + escape_quotes(sql) + "\")"@;
    if columns.len() > 0 {
        head + ",\n"@ + "    SelectColumns = Table.SelectColumns(QueryResult, {"@ + quoted_columns(columns)
            + "})\n"@ + "in\n"@ + "    SelectColumns"@
    } else {
        head + "\n"@ + "in\n"@ + "    QueryResult"@
    }
}

pub fn generate_m(query_name: &str, sql: &str, connection_string: &str) -> (r: String)
    ensures
        r@ == generate_m_spec(sql@, connection_string@),
{
    let source = build_source_expression(connection_string);
    let columns = extract_select_columns(sql);
    let ghost cv = columns.deep_view();
    let mut builder = String::new();
    append_str(&mut builder, "let\n");
    append_str(&mut builder, "    Source = ");
    append_str(&mut builder, source.as_str());
    append_str(&mut builder, ",\n");
    append_str(&mut builder, "    QueryResult = Value.NativeQuery(Source, \"");
    let escaped_sql = escape_m_string(sql);
    append_str(&mut builder, escaped_sql.as_str());
    append_str(&mut builder, "\")");
    let ghost head = builder@;
    if columns.len() > 0 {
        append_str(&mut builder, ",\n");
        append_str(&mut builder, "    SelectColumns = Table.SelectColumns(QueryResult, {");
        let ghost prefix = builder@;
        let mut index: usize = 0;
        assert(cv.take(0) =~= Seq::<Seq<char>>::empty());
        assert(builder@ =~= prefix + quoted_columns(cv.take(0)));
        while index < columns.len()
            invariant
                cv == columns.deep_view(),
                index <= columns@.len(),
                builder@ == prefix + quoted_columns(cv.take(index as int)),
            decreases columns@.len() - index,
        {
            let ghost before = builder@;
            assert(cv.take(index + 1).drop_last() =~= cv.take(index as int));
            assert(cv.take(index + 1).last() == cv[index as int]);
            if index > 0 {
                append_str(&mut builder, ", ");
            }
            push_char(&mut builder, '"');
            let e = escape_m_string(columns[index].as_str());
            append_str(&mut builder, e.as_str());
            push_char(&mut builder, '"');
            proof {
                reveal_strlit("\"");
                let sep = if index + 1 > 1 { ", "@ } else { Seq::<char>::empty() };
                assert(builder@ =~= before + sep + "\""@ + escape_quotes(cv[index as int]) + "\""@);
            }
            index += 1;
        }
        assert(cv.take(columns@.len() as int) =~= cv);
        append_str(&mut builder, "})\n");
        append_str(&mut builder, "in\n");
        append_str(&mut builder, "    SelectColumns");
    } else {
        push_char(&mut builder, '\n');
        append_str(&mut builder, "in\n");
        append_str(&mut builder, "    QueryResult");
        proof {
            reveal_strlit("\n");
        }
    }
    builder
}


/// The VBA text after the first `n` lines: a data-access line (one whose
/// 1-based number is in `data`) is replaced by a comment that quotes it, and
/// the first such line is preceded by a header comment.
pub open spec fn emit_fold(lines: Seq<Seq<char>>, data: Set<usize>, n: nat) -> (Seq<char>, bool)
    decreases n,
{
    if n == 0 {
        (Seq::empty(), false)
    } else {
        let prev = emit_fold(lines, data, (n - 1) as nat);
        let line = lines[n - 1];
        if data.contains(n as usize) {
            let text = if !prev.1 {
                prev.0 + "    ' VBA to M preview: data-access block was moved to generated Power Query M.\n"@
            } else {
                prev.0
            };
            (text + "    ' VBA to M preview replaced: "@ + trim_seq(line) + "\n"@, true)
        } else {
            (prev.0 + line + "\n"@, prev.1)
        }
    }
}

pub open spec fn emit_modified_vba_spec(lines: Seq<Seq<char>>, data: Set<usize>) -> Seq<char> {
    emit_fold(lines, data, lines.len()).0
}

/// `usize` keys order as the integers do, so a `BTreeSet<usize>` behaves as its set view.
proof fn usize_keys_are_ordered()
    ensures
        vstd::laws_cmp::obeys_cmp::<usize>(),
{
    broadcast use vstd::laws_cmp::group_laws_cmp;
}

pub fn emit_modified_vba(lines: &Vec<String>, data_lines: &BTreeSet<usize>) -> (r: String)
    ensures
        r@ == emit_modified_vba_spec(lines.deep_view(), data_lines@),
{
    proof {
        usize_keys_are_ordered();
        broadcast use vstd::std_specs::btree::group_btree_axioms;
    }
    let ghost lv = lines.deep_view();
    let mut builder = String::new();
    let mut inserted_header = false;
    let mut index: usize = 0;
    while index < lines.len()
        invariant
            lv == lines.deep_view(),
            index <= lines@.len(),
            (builder@, inserted_header) == emit_fold(lv, data_lines@, index as nat),
        decreases lines@.len() - index,
    {
        let line_number = index + 1;
        let ghost before = builder@;
        assert(lines@[index as int]@ == lv[index as int]);
        if data_lines.contains(&line_number) {
            if !inserted_header {
                append_str(
                    &mut builder,
                    "    ' VBA to M preview: data-access block was moved to generated Power Query M.\n",
                );
                inserted_header = true;
            }
            let ghost mid = builder@;
            append_str(&mut builder, "    ' VBA to M preview replaced: ");
            let t = trim(lines[index].as_str());
            append_str(&mut builder, t.as_str());
            append_str(&mut builder, "\n");
            assert(builder@ =~= mid + "    ' VBA to M preview replaced: "@ + trim_seq(lv[index as int]) + "\n"@);
        } else {
            append_str(&mut builder, lines[index].as_str());
            append_str(&mut builder, "\n");
        }
        index += 1;
    }
    builder
}


/// One generated M query.
#[derive(Debug, Clone, PartialEq, Eq)]
pub struct MPreviewQuery {
    pub name: String,
    pub source_procedure: String,
    pub native_sql: String,
    pub code: String,
}

pub struct QueryModel {
    pub name: Seq<char>,
    pub source_procedure: Seq<char>,
    pub native_sql: Seq<char>,
    pub code: Seq<char>,
}

impl View for MPreviewQuery {
    type V = QueryModel;

    open spec fn view(&self) -> QueryModel {
        QueryModel {
            name: self.name@,
            source_procedure: self.source_procedure@,
            native_sql: self.native_sql@,
            code: self.code@,
        }
    }
}

pub open spec fn queries_view(q: Seq<MPreviewQuery>) -> Seq<QueryModel> {
    q.map_values(|x: MPreviewQuery| x@)
}

/// The preview for one pasted VBA source.
#[derive(Debug, Clone, PartialEq, Eq)]
pub struct TranslateVbaToMPreviewResult {
    pub mode: String,
    pub source_name: String,
    pub source_line_count: usize,
    pub source_truncated: bool,
    pub m_queries: Vec<MPreviewQuery>,
    pub modified_vba: String,
    pub warnings: Vec<String>,
}

pub struct MPreviewModel {
    pub mode: Seq<char>,
    pub source_name: Seq<char>,
    pub source_line_count: nat,
    pub source_truncated: bool,
    pub m_queries: Seq<QueryModel>,
    pub modified_vba: Seq<char>,
    pub warnings: Seq<Seq<char>>,
}

impl View for TranslateVbaToMPreviewResult {
    type V = MPreviewModel;

    open spec fn view(&self) -> MPreviewModel {
        MPreviewModel {
            mode: self.mode@,
            source_name: self.source_name@,
            source_line_count: self.source_line_count as nat,
            source_truncated: self.source_truncated,
            m_queries: queries_view(self.m_queries@),
            modified_vba: self.modified_vba@,
            warnings: self.warnings.deep_view(),
        }
    }
}

/// The name of the `index`-th query of a procedure.
pub open spec fn query_name_spec(procedure: Seq<char>, index: usize) -> Seq<char> {
    sanitize_name_spec(procedure) + if index == 1 {
        "_Query"@
    } else {
        "_Query"@ + decimal(index as nat)
    }
}

/// Some query already runs `sql`, compared without regard to ASCII case.
pub open spec fn has_query_for(queries: Seq<QueryModel>, sql: Seq<char>) -> bool {
    exists|i: int| 0 <= i < queries.len() && lower_seq(#[trigger] queries[i].native_sql) == lower_seq(sql)
}

/// Adding a candidate query: refused (and the limit flag set) once the
/// limit is reached, skipped when its normalised SQL is already there,
/// appended otherwise.
pub open spec fn add_query_spec(
    queries: Seq<QueryModel>,
    procedure: Seq<char>,
    sql: Seq<char>,
    connection: Seq<char>,
    index: usize,
    limit_reached: bool,
) -> (Seq<QueryModel>, bool) {
    if queries.len() >= MAX_QUERY_COUNT {
        (queries, true)
    } else {
        let normalized = normalize_sql_spec(sql);
        if has_query_for(queries, normalized) {
            (queries, limit_reached)
        } else {
            (
                queries.push(
                    QueryModel {
                        name: query_name_spec(procedure, index),
                        source_procedure: procedure,
                        native_sql: normalized,
                        code: bounded_seq(
                            generate_m_spec(normalized, connection),
                            MAX_QUERY_CODE_CHARS as nat,
                        ).0,
                    },
                ),
                limit_reached,
            )
        }
    }
}

pub fn add_query(
    queries: &mut Vec<MPreviewQuery>,
    procedure: &str,
    sql: &str,
    connection: &str,
    index: usize,
    query_limit_reached: &mut bool,
)
    ensures
        (queries_view(final(queries)@), *final(query_limit_reached)) == add_query_spec(
            queries_view(old(queries)@),
            procedure@,
            sql@,
            connection@,
            index,
            *old(query_limit_reached),
        ),
{
    if queries.len() >= MAX_QUERY_COUNT {
        *query_limit_reached = true;
        return;
    }
    let normalized_sql = normalize_sql(sql);
    let ghost qv = queries_view(queries@);
    let mut i: usize = 0;
    while i < queries.len()
        invariant
            qv == queries_view(queries@),
            queries@ == old(queries)@,
            *query_limit_reached == *old(query_limit_reached),
            normalized_sql@ == normalize_sql_spec(sql@),
            queries@.len() < MAX_QUERY_COUNT,
            i <= queries@.len(),
            forall|j: int| 0 <= j < i ==> lower_seq(#[trigger] qv[j].native_sql) != lower_seq(normalized_sql@),
        decreases queries@.len() - i,
    {
        assert(qv[i as int] == queries@[i as int]@);
        if eq_ignore_ascii_case(queries[i].native_sql.as_str(), normalized_sql.as_str()) {
            assert(lower_seq(qv[i as int].native_sql) == lower_seq(normalized_sql@));
            assert(has_query_for(qv, normalized_sql@));
            return;
        }
        i += 1;
    }
    let mut query_name = sanitize_name(procedure);
    if index == 1 {
        append_str(&mut query_name, "_Query");
    } else {
        append_str(&mut query_name, "_Query");
        let digits = decimal_string(index);
        append_str(&mut query_name, digits.as_str());
    }
    assert(query_name@ =~= query_name_spec(procedure@, index));
    assert(!has_query_for(qv, normalized_sql@));
    let generated = generate_m(query_name.as_str(), normalized_sql.as_str(), connection);
    let (code, _) = crate::text::bounded_text(generated.as_str(), MAX_QUERY_CODE_CHARS);
    let query = MPreviewQuery {
        name: query_name,
        source_procedure: owned(procedure),
        native_sql: normalized_sql,
        code,
    };
    let ghost qmodel = query@;
    queries.push(query);
    assert(queries_view(queries@) =~= qv.push(qmodel));
}

pub open spec fn vars_view(v: Seq<(String, String)>) -> Seq<(Seq<char>, Seq<char>)> {
    v.map_values(|p: (String, String)| (p.0@, p.1@))
}

/// Position of the first variable named `key`, searching from `i`.
pub open spec fn var_index_from(vars: Seq<(Seq<char>, Seq<char>)>, key: Seq<char>, i: int) -> Option<int>
    decreases vars.len() - i,
{
    if i < 0 || i >= vars.len() {
        None
    } else if vars[i].0 == key {
        Some(i)
    } else {
        var_index_from(vars, key, i + 1)
    }
}

pub open spec fn var_index(vars: Seq<(Seq<char>, Seq<char>)>, key: Seq<char>) -> Option<int> {
    var_index_from(vars, key, 0)
}

proof fn lemma_var_index_from_bounds(vars: Seq<(Seq<char>, Seq<char>)>, key: Seq<char>, i: int)
    ensures
        var_index_from(vars, key, i) matches Some(k) ==> (0 <= i <= k < vars.len() && vars[k].0 == key),
    decreases vars.len() - i,
{
    if i < 0 || i >= vars.len() {
    } else if vars[i].0 == key {
    } else {
        lemma_var_index_from_bounds(vars, key, i + 1);
    }
}

fn find_var(sql_vars: &Vec<(String, String)>, key: &str) -> (r: Option<usize>)
    ensures
        match r {
            Some(k) => var_index(vars_view(sql_vars@), key@) == Some(k as int),
            None => var_index(vars_view(sql_vars@), key@) is None,
        },
{
    let ghost vv = vars_view(sql_vars@);
    let mut i: usize = 0;
    while i < sql_vars.len()
        invariant
            vv == vars_view(sql_vars@),
            i <= sql_vars@.len(),
            var_index(vv, key@) == var_index_from(vv, key@, i as int),
        decreases sql_vars@.len() - i,
    {
        if same_text(sql_vars[i].0.as_str(), key) {
            return Some(i);
        }
        i += 1;
    }
    None
}

pub open spec fn opt_str_view(o: Option<&str>) -> Option<Seq<char>> {
    match o {
        Some(s) => Some(s@),
        None => None,
    }
}

/// The SQL text collected so far in the named variable (matched without
/// regard to ASCII case); empty when there is no such variable.
pub open spec fn read_sql_variable_spec(vars: Seq<(Seq<char>, Seq<char>)>, variable_name: Option<Seq<char>>) -> Seq<char> {
    match variable_name {
        Some(name) => match var_index(vars, lower_seq(name)) {
            Some(k) => vars[k].1,
            None => Seq::empty(),
        },
        None => Seq::empty(),
    }
}

pub fn read_sql_variable(sql_vars: &Vec<(String, String)>, variable_name: Option<&str>) -> (r: String)
    ensures
        r@ == read_sql_variable_spec(vars_view(sql_vars@), opt_str_view(variable_name)),
{
    match variable_name {
        Some(name) => {
            let key = normalize_identifier(name);
            match find_var(sql_vars, key.as_str()) {
                Some(k) => {
                    proof {
                        lemma_var_index_from_bounds(vars_view(sql_vars@), key@, 0);
                    }
                    sql_vars[k].1.clone()
                },
                None => String::new(),
            }
        },
        None => String::new(),
    }
}

/// `piece` added to a variable's SQL text, separated by one space.
pub open spec fn joined(prev: Seq<char>, piece: Seq<char>) -> Seq<char> {
    if prev.len() > 0 {
        prev + " "@ + piece
    } else {
        piece
    }
}

/// The variables after appending `piece` to `key` (created when missing).
pub open spec fn append_var(vars: Seq<(Seq<char>, Seq<char>)>, key: Seq<char>, piece: Seq<char>) -> Seq<(Seq<char>, Seq<char>)> {
    match var_index(vars, key) {
        Some(k) => vars.update(k, (key, joined(vars[k].1, piece))),
        None => vars.push((key, piece)),
    }
}

fn append_sql_var(sql_vars: &mut Vec<(String, String)>, key: String, piece: &str)
    ensures
        vars_view(final(sql_vars)@) == append_var(vars_view(old(sql_vars)@), key@, piece@),
{
    let ghost vv = vars_view(sql_vars@);
    match find_var(sql_vars, key.as_str()) {
        Some(k) => {
            proof {
                lemma_var_index_from_bounds(vv, key@, 0);
            }
            let mut value = sql_vars[k].1.clone();
            assert(value@ == vv[k as int].1);
            if value.unicode_len() > 0 {
                push_char(&mut value, ' ');
                proof {
                    reveal_strlit(" ");
                }
            }
            append_str(&mut value, piece);
            assert(value@ =~= joined(vv[k as int].1, piece@));
            let ghost kv = key@;
            sql_vars.set(k, (key, value));
            assert(vars_view(sql_vars@) =~= vv.update(k as int, (kv, joined(vv[k as int].1, piece@))));
            assert(vars_view(sql_vars@) =~= append_var(vv, kv, piece@));
        },
        None => {
            sql_vars.push((key, owned(piece)));
            assert(vars_view(sql_vars@) =~= append_var(vv, key@, piece@));
        },
    }
}


pub open spec fn any_line_contains_ci(lines: Seq<Seq<char>>, fragment: Seq<char>) -> bool {
    exists|i: int| 0 <= i < lines.len() && contains_ci_spec(#[trigger] lines[i], fragment)
}

fn any_line_contains_ci_exec(lines: &Vec<String>, fragment: &str) -> (r: bool)
    ensures
        r == any_line_contains_ci(lines.deep_view(), fragment@),
{
    let ghost lv = lines.deep_view();
    let mut i: usize = 0;
    while i < lines.len()
        invariant
            lv == lines.deep_view(),
            i <= lines@.len(),
            forall|j: int| 0 <= j < i ==> !contains_ci_spec(#[trigger] lv[j], fragment@),
        decreases lines@.len() - i,
    {
        assert(lines@[i as int]@ == lv[i as int]);
        if contains_ci(lines[i].as_str(), fragment) {
            return true;
        }
        i += 1;
    }
    false
}

/// Some line, without trailing whitespace, ends with a VBA line continuation.
pub open spec fn any_continuation_line(lines: Seq<Seq<char>>) -> bool {
    exists|i: int| 0 <= i < lines.len() && ends_with(trim_end_seq(#[trigger] lines[i]), " _"@)
}

fn any_continuation_line_exec(lines: &Vec<String>) -> (r: bool)
    ensures
        r == any_continuation_line(lines.deep_view()),
{
    let ghost lv = lines.deep_view();
    let mut i: usize = 0;
    while i < lines.len()
        invariant
            lv == lines.deep_view(),
            i <= lines@.len(),
            forall|j: int| 0 <= j < i ==> !ends_with(trim_end_seq(#[trigger] lv[j]), " _"@),
        decreases lines@.len() - i,
    {
        assert(lines@[i as int]@ == lv[i as int]);
        let t = trim_end(lines[i].as_str());
        if ends_with_str(t.as_str(), " _") {
            return true;
        }
        i += 1;
    }
    false
}

/// The warnings for VBA constructs that the preview does not translate, in
/// the order of the pattern table, then the line-continuation warning.
pub open spec fn pattern_warnings(lines: Seq<Seq<char>>) -> Seq<Seq<char>> {
    let w = Seq::<Seq<char>>::empty();
    let w = if any_line_contains_ci(lines, "CreateObject("@) {
        w.push("CreateObject automation is not translated in this preview."@)
    } else {
        w
    };
    let w = if any_line_contains_ci(lines, "QueryDef"@) {
        w.push("DAO QueryDef flows are not translated in this preview."@)
    } else {
        w
    };
    let w = if any_line_contains_ci(lines, ".Parameters"@) {
        w.push("Parameterized ADO command bindings are not translated in this preview."@)
    } else {
        w
    };
    let w = if any_line_contains_ci(lines, "OpenRecordset"@) {
        w.push("DAO OpenRecordset flows are not translated in this preview."@)
    } else {
        w
    };
    let w = if any_line_contains_ci(lines, "Execute("@) {
        w.push("SQL execution side effects are not translated in this preview."@)
    } else {
        w
    };
    let w = if any_line_contains_ci(lines, "CopyFromRecordset"@) {
        w.push("Worksheet CopyFromRecordset flows are not translated in this preview."@)
    } else {
        w
    };
    if any_continuation_line(lines) {
        w.push("VBA line continuations may hide SQL assembly that this preview does not reconstruct."@)
    } else {
        w
    }
}

fn push_if(warnings: &mut Vec<String>, cond: bool, text: &str)
    ensures
        final(warnings).deep_view() == if cond {
            old(warnings).deep_view().push(text@)
        } else {
            old(warnings).deep_view()
        },
{
    if cond {
        let ghost before = warnings.deep_view();
        warnings.push(owned(text));
        assert(warnings.deep_view() =~= before.push(text@));
    }
}

pub fn collect_unsupported_pattern_warnings(lines: &Vec<String>, warnings: &mut Vec<String>)
    ensures
        final(warnings).deep_view() == old(warnings).deep_view() + pattern_warnings(lines.deep_view()),
{
    let ghost start = warnings.deep_view();
    let ghost lv = lines.deep_view();
    let c = any_line_contains_ci_exec(lines, "CreateObject(");
    push_if(warnings, c, "CreateObject automation is not translated in this preview.");
    let c = any_line_contains_ci_exec(lines, "QueryDef");
    push_if(warnings, c, "DAO QueryDef flows are not translated in this preview.");
    let c = any_line_contains_ci_exec(lines, ".Parameters");
    push_if(warnings, c, "Parameterized ADO command bindings are not translated in this preview.");
    let c = any_line_contains_ci_exec(lines, "OpenRecordset");
    push_if(warnings, c, "DAO OpenRecordset flows are not translated in this preview.");
    let c = any_line_contains_ci_exec(lines, "Execute(");
    push_if(warnings, c, "SQL execution side effects are not translated in this preview.");
    let c = any_line_contains_ci_exec(lines, "CopyFromRecordset");
    push_if(warnings, c, "Worksheet CopyFromRecordset flows are not translated in this preview.");
    let c = any_continuation_line_exec(lines);
    push_if(
        warnings,
        c,
        "VBA line continuations may hide SQL assembly that this preview does not reconstruct.",
    );
    assert(warnings.deep_view() =~= start + pattern_warnings(lv));
}


pub open spec fn procedure_pattern() -> Seq<char> {
    r"(?i)^\s*(?:Public\s+|Private\s+)?(?:Sub|Function)\s+([A-Za-z_][A-Za-z0-9_]*)"@
}

pub open spec fn string_assignment_pattern() -> Seq<char> {
    r#"(?i)^\s*([A-Za-z_][A-Za-z0-9_]*)\s*=\s*(?:(?:[A-Za-z_][A-Za-z0-9_]*)\s*&\s*)?"((?:[^"]|"")*)""#@
}

/// `.Open "..."` with a string literal argument (a connection string or inline SQL).
pub open spec fn open_literal_pattern() -> Seq<char> {
    r#"(?i)\.Open\s+"((?:[^"]|"")*)""#@
}

pub open spec fn open_variable_pattern() -> Seq<char> {
    r#"(?i)\.Open\s+([A-Za-z_][A-Za-z0-9_]*)\s*,"#@
}

pub open spec fn command_text_pattern() -> Seq<char> {
    r#"(?i)\.CommandText\s*=\s*(?:"((?:[^"]|"")*)"|([A-Za-z_][A-Za-z0-9_]*))"#@
}

/// What the translator has gathered after reading some lines.
pub struct ScanModel {
    pub vars: Seq<(Seq<char>, Seq<char>)>,
    pub data: Set<usize>,
    pub connection: Seq<char>,
    pub procedure: Seq<char>,
    pub index: usize,
    pub queries: Seq<QueryModel>,
    pub limit: bool,
}

pub open spec fn next_index(i: usize) -> usize {
    if i == usize::MAX {
        i
    } else {
        (i + 1) as usize
    }
}

/// A candidate query taken from line `ln`.
pub open spec fn take_query(st: ScanModel, sql: Seq<char>, ln: usize) -> ScanModel {
    let added = add_query_spec(st.queries, st.procedure, sql, st.connection, st.index, st.limit);
    ScanModel { queries: added.0, limit: added.1, index: next_index(st.index), data: st.data.insert(ln), ..st }
}

/// The SQL of a `.CommandText =` assignment: its non-empty literal, else the
/// variable it names.
pub open spec fn command_sql(vars: Seq<(Seq<char>, Seq<char>)>, g: Seq<Option<Seq<char>>>) -> Seq<char> {
    match group_at(g, 1) {
        Some(t) if unescape_quotes(t).len() > 0 => unescape_quotes(t),
        _ => read_sql_variable_spec(vars, group_at(g, 2)),
    }
}

/// The state after a string assignment on the line, if any: SQL-looking text,
/// or text for a variable with an SQL-like name or already collected, is
/// appended to that variable.
pub open spec fn assignment_step(st: ScanModel, line: Seq<char>, ln: usize) -> ScanModel {
    match regex_captures_of(string_assignment_pattern(), line) {
        Some(g) => {
            let variable = lower_seq(group_text(g, 1));
            let text = unescape_quotes(group_text(g, 2));
            if is_sql_variable_spec(variable) || looks_like_sql_spec(text) || var_index(st.vars, variable) is Some {
                ScanModel { vars: append_var(st.vars, variable, trim_seq(text)), data: st.data.insert(ln), ..st }
            } else {
                st
            }
        },
        None => st,
    }
}

/// The state after `.Open` with inline SQL or with an SQL variable.
pub open spec fn open_step(st: ScanModel, line: Seq<char>, ln: usize) -> ScanModel {
    let inline = regex_captures_of(open_literal_pattern(), line);
    if inline is Some && looks_like_sql_spec(unescape_quotes(group_text(inline->0, 1))) {
        take_query(st, unescape_quotes(group_text(inline->0, 1)), ln)
    } else {
        match regex_captures_of(open_variable_pattern(), line) {
            Some(g) => {
                let sql = read_sql_variable_spec(st.vars, group_at(g, 1));
                if looks_like_sql_spec(sql) {
                    take_query(st, sql, ln)
                } else {
                    st
                }
            },
            None => st,
        }
    }
}

/// Reading line number `ln`: a procedure header renames the current
/// procedure; then the first of these that applies is taken: a connection
/// string, a command text, or a string assignment followed by a recordset open.
pub open spec fn line_step(st0: ScanModel, line: Seq<char>, ln: usize) -> ScanModel {
    let st = match regex_captures_of(procedure_pattern(), line) {
        Some(g) => ScanModel { procedure: group_text(g, 1), ..st0 },
        None => st0,
    };
    let conn = regex_captures_of(open_literal_pattern(), line);
    if conn is Some && looks_like_connection_string_spec(group_text(conn->0, 1)) {
        ScanModel { connection: unescape_quotes(group_text(conn->0, 1)), data: st.data.insert(ln), ..st }
    } else {
        match regex_captures_of(command_text_pattern(), line) {
            Some(g) => {
                let sql = command_sql(st.vars, g);
                if looks_like_sql_spec(sql) {
                    take_query(st, sql, ln)
                } else {
                    st
                }
            },
            None => open_step(assignment_step(st, line, ln), line, ln),
        }
    }
}

pub open spec fn initial_scan() -> ScanModel {
    ScanModel {
        vars: Seq::empty(),
        data: Set::empty(),
        connection: Seq::empty(),
        procedure: "Workbook"@,
        index: 1,
        queries: Seq::empty(),
        limit: false,
    }
}

/// The state after the first `n` lines.
pub open spec fn scan_fold(lines: Seq<Seq<char>>, n: nat) -> ScanModel
    decreases n,
{
    if n == 0 {
        initial_scan()
    } else {
        line_step(scan_fold(lines, (n - 1) as nat), lines[n - 1], n as usize)
    }
}

struct ScanState {
    sql_vars: Vec<(String, String)>,
    data_lines: BTreeSet<usize>,
    connection: String,
    procedure: String,
    query_index: usize,
    m_queries: Vec<MPreviewQuery>,
    query_limit_reached: bool,
}

impl ScanState {
    spec fn model(&self) -> ScanModel {
        ScanModel {
            vars: vars_view(self.sql_vars@),
            data: self.data_lines@,
            connection: self.connection@,
            procedure: self.procedure@,
            index: self.query_index,
            queries: queries_view(self.m_queries@),
            limit: self.query_limit_reached,
        }
    }
}

fn mark_line(data_lines: &mut BTreeSet<usize>, line_number: usize)
    ensures
        final(data_lines)@ == old(data_lines)@.insert(line_number),
{
    proof {
        usize_keys_are_ordered();
    }
    data_lines.insert(line_number);
}

fn take_query_exec(st: &mut ScanState, sql: &str, line_number: usize)
    ensures
        final(st).model() == take_query(old(st).model(), sql@, line_number),
{
    add_query(
        &mut st.m_queries,
        st.procedure.as_str(),
        sql,
        st.connection.as_str(),
        st.query_index,
        &mut st.query_limit_reached,
    );
    st.query_index = st.query_index.saturating_add(1);
    mark_line(&mut st.data_lines, line_number);
}

fn opt_as_str(o: &Option<String>) -> (r: Option<&str>)
    ensures
        opt_str_view(r) == match o {
            Some(s) => Some(s@),
            None => None::<Seq<char>>,
        },
{
    match o {
        Some(s) => Some(s.as_str()),
        None => None,
    }
}

fn assignment_step_exec(st: &mut ScanState, line: &str, line_number: usize)
    ensures
        final(st).model() == assignment_step(old(st).model(), line@, line_number),
{
    let caps = regex_captures(
        r#"(?i)^\s*([A-Za-z_][A-Za-z0-9_]*)\s*=\s*(?:(?:[A-Za-z_][A-Za-z0-9_]*)\s*&\s*)?"((?:[^"]|"")*)""#,
        line,
    );
    if let Some(groups) = caps {
        let name = group_string(&groups, 1);
        let variable = normalize_identifier(name.as_str());
        let raw = group_string(&groups, 2);
        let text = unescape_vba_string(raw.as_str());
        let known = find_var(&st.sql_vars, variable.as_str());
        if is_sql_variable(variable.as_str()) || looks_like_sql(text.as_str()) || known.is_some() {
            let piece = trim(text.as_str());
            append_sql_var(&mut st.sql_vars, variable, piece.as_str());
            mark_line(&mut st.data_lines, line_number);
        }
    }
}

fn open_step_exec(st: &mut ScanState, line: &str, line_number: usize)
    ensures
        final(st).model() == open_step(old(st).model(), line@, line_number),
{
    let inline = regex_captures(r#"(?i)\.Open\s+"((?:[^"]|"")*)""#, line);
    if let Some(groups) = inline {
        let raw = group_string(&groups, 1);
        let sql = unescape_vba_string(raw.as_str());
        if looks_like_sql(sql.as_str()) {
            take_query_exec(st, sql.as_str(), line_number);
            return;
        }
    }
    let variable = regex_captures(r#"(?i)\.Open\s+([A-Za-z_][A-Za-z0-9_]*)\s*,"#, line);
    if let Some(groups) = variable {
        let name = group_opt(&groups, 1);
        let sql = read_sql_variable(&st.sql_vars, opt_as_str(&name));
        if looks_like_sql(sql.as_str()) {
            take_query_exec(st, sql.as_str(), line_number);
        }
    }
}

/// The connection string that a `.Open "..."` match gives, when its text
/// looks like one.
pub open spec fn open_literal_connection_spec(g: Seq<Option<Seq<char>>>) -> Option<Seq<char>> {
    if looks_like_connection_string_spec(group_text(g, 1)) {
        Some(unescape_quotes(group_text(g, 1)))
    } else {
        None
    }
}

/// The connection string that a `.Open "..."` match gives, when its text
/// looks like one.
pub fn open_literal_connection(groups: &Vec<Option<String>>) -> (r: Option<String>)
    ensures
        match r {
            Some(c) => open_literal_connection_spec(groups_view(*groups)) == Some(c@),
            None => open_literal_connection_spec(groups_view(*groups)) is None,
        },
{
    let raw = group_string(groups, 1);
    if looks_like_connection_string(raw.as_str()) {
        Some(unescape_vba_string(raw.as_str()))
    } else {
        None
    }
}

/// The SQL that a `.CommandText = ...` match gives: the inline text when
/// it is not empty, else the text collected in the named variable.
pub fn command_text_sql(sql_vars: &Vec<(String, String)>, groups: &Vec<Option<String>>) -> (r: String)
    ensures
        r@ == command_sql(vars_view(sql_vars@), groups_view(*groups)),
{
    let inline = group_opt(groups, 1);
    let variable_name = group_opt(groups, 2);
    match inline {
        Some(text) => {
            let unescaped = unescape_vba_string(text.as_str());
            if unescaped.unicode_len() > 0 {
                unescaped
            } else {
                read_sql_variable(sql_vars, opt_as_str(&variable_name))
            }
        },
        None => read_sql_variable(sql_vars, opt_as_str(&variable_name)),
    }
}

fn scan_line(st: &mut ScanState, line: &str, line_number: usize)
    ensures
        final(st).model() == line_step(old(st).model(), line@, line_number),
{
    if let Some(groups) = regex_captures(
        r"(?i)^\s*(?:Public\s+|Private\s+)?(?:Sub|Function)\s+([A-Za-z_][A-Za-z0-9_]*)",
        line,
    ) {
        st.procedure = group_string(&groups, 1);
    }
    if let Some(groups) = regex_captures(r#"(?i)\.Open\s+"((?:[^"]|"")*)""#, line) {
        if let Some(connection) = open_literal_connection(&groups) {
            st.connection = connection;
            mark_line(&mut st.data_lines, line_number);
            return;
        }
    }
    if let Some(groups) = regex_captures(
        r#"(?i)\.CommandText\s*=\s*(?:"((?:[^"]|"")*)"|([A-Za-z_][A-Za-z0-9_]*))"#,
        line,
    ) {
        let sql = command_text_sql(&st.sql_vars, &groups);
        if looks_like_sql(sql.as_str()) {
            take_query_exec(st, sql.as_str(), line_number);
        }
        return;
    }
    assignment_step_exec(st, line, line_number);
    open_step_exec(st, line, line_number);
}


/// The value of the first collected variable whose text looks like SQL.
pub open spec fn first_sql_value_from(vars: Seq<(Seq<char>, Seq<char>)>, i: int) -> Option<Seq<char>>
    decreases vars.len() - i,
{
    if i < 0 || i >= vars.len() {
        None
    } else if looks_like_sql_spec(vars[i].1) {
        Some(vars[i].1)
    } else {
        first_sql_value_from(vars, i + 1)
    }
}

/// The queries after the scan, with one taken from the collected variables
/// when no statement produced any.
pub open spec fn final_queries(st: ScanModel) -> (Seq<QueryModel>, bool) {
    if st.queries.len() == 0 {
        match first_sql_value_from(st.vars, 0) {
            Some(sql) => add_query_spec(st.queries, st.procedure, sql, st.connection, st.index, st.limit),
            None => (st.queries, st.limit),
        }
    } else {
        (st.queries, st.limit)
    }
}

pub open spec fn truncate_to<T>(s: Seq<T>, n: nat) -> Seq<T> {
    if n < s.len() {
        s.take(n as int)
    } else {
        s
    }
}

/// The preview that `translate_vba_to_m_preview` returns for a source text.
pub open spec fn translate_m_spec(source: Seq<char>, source_name: Option<Seq<char>>) -> MPreviewModel {
    let bounded = bounded_seq(source, MAX_SOURCE_CHARS as nat);
    let lines = str_lines(bounded.0);
    let w = if bounded.1 {
        seq!["source text truncated to 32768 characters for preview"@]
    } else {
        Seq::empty()
    };
    let w = w + pattern_warnings(lines);
    let st = scan_fold(lines, lines.len());
    let done = final_queries(st);
    let w = if st.connection.len() == 0 {
        w.push("No ADODB connection string was found. Generated M uses a placeholder data source."@)
    } else {
        w
    };
    let w = if done.0.len() == 0 {
        w.push("No SQL-like VBA data-access blocks were detected in the source preview."@)
    } else {
        w
    };
    let w = if done.1 {
        w.push("M query preview truncated to 8 candidates"@)
    } else {
        w
    };
    let w = w.push("Preview is heuristic and source-first; review the generated M before reuse."@);
    let modified = bounded_seq(emit_modified_vba_spec(lines, st.data), MAX_OUTPUT_CHARS as nat);
    let w = if modified.1 {
        w.push("modified VBA preview truncated to 8192 characters"@)
    } else {
        w
    };
    MPreviewModel {
        mode: "heuristic_preview"@,
        source_name: match source_name {
            Some(n) => n,
            None => "pasted VBA"@,
        },
        source_line_count: lines.len(),
        source_truncated: bounded.1,
        m_queries: done.0,
        modified_vba: modified.0,
        warnings: truncate_to(w, MAX_WARNINGS as nat),
    }
}

fn add_fallback_query(st: &mut ScanState)
    ensures
        (queries_view(final(st).m_queries@), final(st).query_limit_reached) == final_queries(old(st).model()),
        final(st).connection@ == old(st).connection@,
        final(st).data_lines@ == old(st).data_lines@,
{
    if st.m_queries.len() > 0 {
        return;
    }
    let ghost m = st.model();
    let mut i: usize = 0;
    while i < st.sql_vars.len()
        invariant
            st.model() == m,
            m == old(st).model(),
            st.connection@ == old(st).connection@,
            st.data_lines@ == old(st).data_lines@,
            m.queries.len() == 0,
            i <= st.sql_vars@.len(),
            first_sql_value_from(m.vars, 0) == first_sql_value_from(m.vars, i as int),
        decreases st.sql_vars@.len() - i,
    {
        assert(m.vars[i as int] == (st.sql_vars@[i as int].0@, st.sql_vars@[i as int].1@));
        if looks_like_sql(st.sql_vars[i].1.as_str()) {
            let sql = st.sql_vars[i].1.clone();
            add_query(
                &mut st.m_queries,
                st.procedure.as_str(),
                sql.as_str(),
                st.connection.as_str(),
                st.query_index,
                &mut st.query_limit_reached,
            );
            return;
        }
        i += 1;
    }
}

pub fn translate_vba_to_m_preview(source_text: &str, source_name: Option<&str>) -> (r: TranslateVbaToMPreviewResult)
    ensures
        r@ == translate_m_spec(source_text@, opt_str_view(source_name)),
{
    let source_name = match source_name {
        Some(n) => owned(n),
        None => owned("pasted VBA"),
    };
    let (bounded, source_truncated) = crate::text::bounded_text(source_text, MAX_SOURCE_CHARS);
    let lines = lines_of(bounded.as_str());
    let ghost lv = lines.deep_view();
    let mut warnings: Vec<String> = Vec::new();
    if source_truncated {
        warnings.push(owned("source text truncated to 32768 characters for preview"));
    }
    assert(warnings.deep_view() =~= (if source_truncated {
        seq!["source text truncated to 32768 characters for preview"@]
    } else {
        Seq::<Seq<char>>::empty()
    }));
    collect_unsupported_pattern_warnings(&lines, &mut warnings);
    let mut st = ScanState {
        sql_vars: Vec::new(),
        data_lines: BTreeSet::new(),
        connection: String::new(),
        procedure: owned("Workbook"),
        query_index: 1,
        m_queries: Vec::new(),
        query_limit_reached: false,
    };
    assert(st.model() =~= initial_scan()) by {
        assert(vars_view(st.sql_vars@) =~= Seq::<(Seq<char>, Seq<char>)>::empty());
        assert(queries_view(st.m_queries@) =~= Seq::<QueryModel>::empty());
    }
    let mut index: usize = 0;
    while index < lines.len()
        invariant
            lv == lines.deep_view(),
            index <= lines@.len(),
            st.model() == scan_fold(lv, index as nat),
        decreases lines@.len() - index,
    {
        assert(lines@[index as int]@ == lv[index as int]);
        scan_line(&mut st, lines[index].as_str(), index + 1);
        index += 1;
    }
    let ghost scanned = st.model();
    add_fallback_query(&mut st);
    assert((queries_view(st.m_queries@), st.query_limit_reached) == final_queries(scanned));
    if st.connection.unicode_len() == 0 {
        push_if(&mut warnings, true, "No ADODB connection string was found. Generated M uses a placeholder data source.");
    }
    if st.m_queries.len() == 0 {
        push_if(&mut warnings, true, "No SQL-like VBA data-access blocks were detected in the source preview.");
    }
    if st.query_limit_reached {
        push_if(&mut warnings, true, "M query preview truncated to 8 candidates");
    }
    push_if(&mut warnings, true, "Preview is heuristic and source-first; review the generated M before reuse.");
    let modified_full = emit_modified_vba(&lines, &st.data_lines);
    let (modified_vba, modified_truncated) = crate::text::bounded_text(modified_full.as_str(), MAX_OUTPUT_CHARS);
    if modified_truncated {
        push_if(&mut warnings, true, "modified VBA preview truncated to 8192 characters");
    }
    let ghost before_truncate = warnings.deep_view();
    warnings.truncate(MAX_WARNINGS);
    assert(warnings.deep_view() =~= truncate_to(before_truncate, MAX_WARNINGS as nat));
    TranslateVbaToMPreviewResult {
        mode: owned("heuristic_preview"),
        source_name,
        source_line_count: lines.len(),
        source_truncated,
        m_queries: st.m_queries,
        modified_vba,
        warnings,
    }
}

/// At most eight queries, no two of which run the same SQL up to ASCII case.
pub open spec fn queries_well_formed(q: Seq<QueryModel>) -> bool {
    &&& q.len() <= MAX_QUERY_COUNT
    &&& forall|i: int, j: int|
        0 <= i < j < q.len() ==> lower_seq(#[trigger] q[i].native_sql) != lower_seq(#[trigger] q[j].native_sql)
}

proof fn lemma_add_query_keeps(
    queries: Seq<QueryModel>,
    procedure: Seq<char>,
    sql: Seq<char>,
    connection: Seq<char>,
    index: usize,
    limit_reached: bool,
)
    requires
        queries_well_formed(queries),
    ensures
        queries_well_formed(add_query_spec(queries, procedure, sql, connection, index, limit_reached).0),
{
    let r = add_query_spec(queries, procedure, sql, connection, index, limit_reached).0;
    if queries.len() < MAX_QUERY_COUNT {
        let normalized = normalize_sql_spec(sql);
        if !has_query_for(queries, normalized) {
            assert forall|i: int, j: int| 0 <= i < j < r.len() implies lower_seq(#[trigger] r[i].native_sql) != lower_seq(
                #[trigger] r[j].native_sql,
            ) by {
                if j == queries.len() {
                    assert(r[j].native_sql == normalized);
                    assert(r[i] == queries[i]);
                    if lower_seq(queries[i].native_sql) == lower_seq(normalized) {
                        assert(has_query_for(queries, normalized));
                    }
                } else {
                    assert(r[i] == queries[i]);
                    assert(r[j] == queries[j]);
                }
            }
        }
    }
}

proof fn lemma_line_step_keeps(st: ScanModel, line: Seq<char>, ln: usize)
    requires
        queries_well_formed(st.queries),
    ensures
        queries_well_formed(line_step(st, line, ln).queries),
{
    let st1 = match regex_captures_of(procedure_pattern(), line) {
        Some(g) => ScanModel { procedure: group_text(g, 1), ..st },
        None => st,
    };
    let conn = regex_captures_of(open_literal_pattern(), line);
    if !(conn is Some && looks_like_connection_string_spec(group_text(conn->0, 1))) {
        match regex_captures_of(command_text_pattern(), line) {
            Some(g) => {
                let sql = command_sql(st1.vars, g);
                lemma_add_query_keeps(st1.queries, st1.procedure, sql, st1.connection, st1.index, st1.limit);
            },
            None => {
                let st2 = assignment_step(st1, line, ln);
                assert(st2.queries == st1.queries);
                let inline = regex_captures_of(open_literal_pattern(), line);
                if inline is Some && looks_like_sql_spec(unescape_quotes(group_text(inline->0, 1))) {
                    lemma_add_query_keeps(
                        st2.queries,
                        st2.procedure,
                        unescape_quotes(group_text(inline->0, 1)),
                        st2.connection,
                        st2.index,
                        st2.limit,
                    );
                } else {
                    match regex_captures_of(open_variable_pattern(), line) {
                        Some(g) => {
                            let sql = read_sql_variable_spec(st2.vars, group_at(g, 1));
                            lemma_add_query_keeps(st2.queries, st2.procedure, sql, st2.connection, st2.index, st2.limit);
                        },
                        None => {},
                    }
                }
            },
        }
    }
}

proof fn lemma_scan_fold_keeps(lines: Seq<Seq<char>>, n: nat)
    requires
        n <= lines.len(),
    ensures
        queries_well_formed(scan_fold(lines, n).queries),
    decreases n,
{
    if n > 0 {
        lemma_scan_fold_keeps(lines, (n - 1) as nat);
        lemma_line_step_keeps(scan_fold(lines, (n - 1) as nat), lines[n - 1], n as usize);
    }
}

/// Whatever the source, the M preview proposes at most eight queries, no
/// two of them with the same SQL up to ASCII case, and at most sixteen
/// warnings, in the heuristic preview mode.
pub proof fn law_m_preview_is_bounded(source: Seq<char>, source_name: Option<Seq<char>>)
    ensures
        queries_well_formed(translate_m_spec(source, source_name).m_queries),
        translate_m_spec(source, source_name).warnings.len() <= MAX_WARNINGS,
        translate_m_spec(source, source_name).mode == "heuristic_preview"@,
{
    let bounded = bounded_seq(source, MAX_SOURCE_CHARS as nat);
    let lines = str_lines(bounded.0);
    lemma_scan_fold_keeps(lines, lines.len());
    let st = scan_fold(lines, lines.len());
    if st.queries.len() == 0 {
        match first_sql_value_from(st.vars, 0) {
            Some(sql) => lemma_add_query_keeps(st.queries, st.procedure, sql, st.connection, st.index, st.limit),
            None => {},
        }
    }
}

/// The data source a connection string reads as: an Access database file
/// when the provider is Access's (ACE or Jet, in any case) or a `DBQ`
/// file is named; else ODBC by DSN when one is named; else ODBC for the
/// MSDASQL provider; else SQL Server.
pub proof fn law_source_follows_the_provider(c: Seq<char>)
    ensures
        ({
            let provider = connection_value_spec(c, "Provider"@);
            let dbq = connection_value_spec(c, "DBQ"@);
            let dsn = connection_value_spec(c, "DSN"@);
            let access = contains_ci_spec(provider, "Microsoft.ACE"@) || contains_ci_spec(provider, "Microsoft.Jet"@)
                || trim_seq(dbq).len() > 0;
            &&& access ==> crate::text::starts_with(build_source_spec(c), "Access.Database(File.Contents(\""@)
            &&& !access && trim_seq(dsn).len() > 0 ==> crate::text::starts_with(
                build_source_spec(c),
                "Odbc.DataSource(\"dsn="@,
            )
            &&& !access && trim_seq(dsn).len() == 0 && contains_ci_spec(provider, "MSDASQL"@) ==> build_source_spec(c)
                == "Odbc.DataSource(\""@ + escape_quotes(c) + "\")"@
            &&& !access && trim_seq(dsn).len() == 0 && !contains_ci_spec(provider, "MSDASQL"@)
                ==> crate::text::starts_with(build_source_spec(c), "Sql.Database(\""@)
        }),
{
    let r = build_source_spec(c);
    let provider = connection_value_spec(c, "Provider"@);
    let dbq = connection_value_spec(c, "DBQ"@);
    let dsn = connection_value_spec(c, "DSN"@);
    let data_source = connection_value_spec(c, "Data Source"@);
    if trim_seq(c).len() == 0 {
        assert(provider.len() == 0 && dbq.len() == 0 && dsn.len() == 0);
        assert(trim_seq(Seq::<char>::empty()).len() == 0) by {
            assert(crate::text::trim_start_seq(Seq::<char>::empty()) == Seq::<char>::empty());
            assert(trim_end_seq(Seq::<char>::empty()) == Seq::<char>::empty());
        }
        let p = "Sql.Database(\""@;
        reveal_strlit("Sql.Database(\"SERVER\", \"DATABASE\")");
        reveal_strlit("Sql.Database(\"");
        assert(r.take(p.len() as int) =~= p);
    } else {
        let a = "Access.Database(File.Contents(\""@;
        let o = "Odbc.DataSource(\"dsn="@;
        let q = "Sql.Database(\""@;
        let access_text = a + escape_quotes(first_non_empty_spec(dbq, data_source)) + "\"), [CreateNavigationProperties=true])"@;
        assert(access_text.take(a.len() as int) =~= a);
        let odbc_text = o + escape_quotes(dsn) + "\")"@;
        assert(odbc_text.take(o.len() as int) =~= o);
        let server = first_non_empty_spec(connection_value_spec(c, "Server"@), data_source);
        let database = first_non_empty_spec(
            connection_value_spec(c, "Initial Catalog"@),
            connection_value_spec(c, "Database"@),
        );
        let sv = if trim_seq(server).len() == 0 { "SERVER"@ } else { server };
        let dv = if trim_seq(database).len() == 0 { "DATABASE"@ } else { database };
        let sql_text = q + escape_quotes(sv) + "\", \""@ + escape_quotes(dv) + "\")"@;
        assert(sql_text.take(q.len() as int) =~= q);
    }
}

} // verus!
