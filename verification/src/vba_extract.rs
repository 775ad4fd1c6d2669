//! Read-only extraction of VBA module text from a workbook's `vbaProject.bin`.
use vstd::prelude::*;
use std::io::Read;
use crate::text::{bounded_seq, bounded_text, decimal, decimal_string, owned, append_str};
use crate::vba_onlyoffice_analyze::opt_view;
use crate::model_path::{scoped_outcome, scoped_path_from_model_arg, scoped_view, workbook_extensions, ScopedPath};
use crate::text::starts_with_str;
use crate::vba_container::{
    dir_code_page, dir_stream_code_page, unpack_compressed_container,
    unpack_container, Unpacked, Unpacking,
};
use crate::vba_project_metadata::VbaReferenceKind;
use crate::vba_dir::{dir_parse_uses_all, dir_stream_parse_uses_all};

verus! {

pub const MAX_VBA_PROJECT_BIN_BYTES: usize = 16777216;

pub const MAX_EXTRACTED_MODULES: usize = 16;

pub const MAX_MODULE_SOURCE_CHARS: usize = 4096;

pub const MAX_MODULE_DOC_CHARS: usize = 512;

pub const MAX_WARNINGS: usize = 16;

/// The two kinds of VBA module that a project records.
#[derive(Debug, Clone, Copy, PartialEq, Eq, Structural)]
pub enum VbaModuleKind {
    Procedural,
    DocClsDesigner,
}

/// One extracted module: its record in the project and its bounded source.
#[derive(Debug, Clone, PartialEq, Eq)]
pub struct ExtractedVbaModule {
    pub name: String,
    pub stream_name: String,
    pub module_kind: VbaModuleKind,
    pub text_offset: usize,
    pub read_only: bool,
    pub private: bool,
    pub doc_string: String,
    pub source: String,
    pub source_truncated: bool,
}

pub struct ExtractedModuleModel {
    pub name: Seq<char>,
    pub stream_name: Seq<char>,
    pub module_kind: VbaModuleKind,
    pub text_offset: nat,
    pub read_only: bool,
    pub private: bool,
    pub doc_string: Seq<char>,
    pub source: Seq<char>,
    pub source_truncated: bool,
}

impl View for ExtractedVbaModule {
    type V = ExtractedModuleModel;

    open spec fn view(&self) -> ExtractedModuleModel {
        ExtractedModuleModel {
            name: self.name@,
            stream_name: self.stream_name@,
            module_kind: self.module_kind,
            text_offset: self.text_offset as nat,
            read_only: self.read_only,
            private: self.private,
            doc_string: self.doc_string@,
            source: self.source@,
            source_truncated: self.source_truncated,
        }
    }
}

pub open spec fn modules_view(v: Seq<ExtractedVbaModule>) -> Seq<ExtractedModuleModel> {
    v.map_values(|m: ExtractedVbaModule| m@)
}

/// What an extraction found in one workbook.
#[derive(Debug, Clone, PartialEq, Eq)]
pub struct ExtractVbaModulesResult {
    pub mode: String,
    pub path: String,
    pub has_vba_project: bool,
    pub code_page: Option<u16>,
    pub module_count: usize,
    pub modules: Vec<ExtractedVbaModule>,
    pub warnings: Vec<String>,
}

pub struct ExtractionModel {
    pub mode: Seq<char>,
    pub path: Seq<char>,
    pub has_vba_project: bool,
    pub code_page: Option<u16>,
    pub module_count: nat,
    pub modules: Seq<ExtractedModuleModel>,
    pub warnings: Seq<Seq<char>>,
}

impl View for ExtractVbaModulesResult {
    type V = ExtractionModel;

    open spec fn view(&self) -> ExtractionModel {
        ExtractionModel {
            mode: self.mode@,
            path: self.path@,
            has_vba_project: self.has_vba_project,
            code_page: self.code_page,
            module_count: self.module_count as nat,
            modules: modules_view(self.modules@),
            warnings: self.warnings.deep_view(),
        }
    }
}


/// The error text with which `zip::ZipArchive::new` refuses `bytes` as an archive, if it does.
pub uninterp spec fn zip_open_error_of(bytes: Seq<u8>) -> Option<Seq<char>>;

/// The uncompressed size that the archive in `bytes` records for entry `name`,
/// if the archive opens and has that entry.
pub uninterp spec fn zip_entry_size_of(bytes: Seq<u8>, name: Seq<char>) -> Option<u64>;

/// The contents of entry `name` of the archive in `bytes`, or the error text of the read.
pub uninterp spec fn zip_entry_contents_of(bytes: Seq<u8>, name: Seq<char>) -> Result<Seq<u8>, Seq<char>>;

/// Calls `zip::ZipArchive::new` on the bytes; the result is the error's
/// display text, which is a function of the bytes alone.
#[verifier::external_body]
pub(crate) fn zip_open_error(bytes: &Vec<u8>) -> (r: Option<String>)
    ensures
        opt_view(r) == zip_open_error_of(bytes@),
{
    match zip::ZipArchive::new(std::io::Cursor::new(bytes.as_slice())) {
        Ok(_) => None,
        Err(err) => Some(err.to_string()),
    }
}

/// Calls `ZipArchive::by_name` and `ZipFile::size` on the archive in the
/// bytes; `None` when the archive or the entry cannot be had.
#[verifier::external_body]
pub(crate) fn zip_entry_size(bytes: &Vec<u8>, name: &str) -> (r: Option<u64>)
    ensures
        r == zip_entry_size_of(bytes@, name@),
{
    let mut archive = match zip::ZipArchive::new(std::io::Cursor::new(bytes.as_slice())) {
        Ok(archive) => archive,
        Err(_) => return None,
    };
    let size = match archive.by_name(name) {
        Ok(entry) => Some(entry.size()),
        Err(_) => None,
    };
    size
}

/// Reads entry `name` of the archive in the bytes to its end
/// (`std::io::Read::read_to_end` on the `ZipFile`), or gives the error's text.
#[verifier::external_body]
pub(crate) fn zip_entry_read(bytes: &Vec<u8>, name: &str, capacity: usize) -> (r: Result<Vec<u8>, String>)
    ensures
        match (r, zip_entry_contents_of(bytes@, name@)) {
            (Ok(b), Ok(c)) => b@ == c,
            (Err(e), Err(c)) => e@ == c,
            _ => false,
        },
{
    let mut archive = match zip::ZipArchive::new(std::io::Cursor::new(bytes.as_slice())) {
        Ok(archive) => archive,
        Err(err) => return Err(err.to_string()),
    };
    let mut entry = archive.by_name(name).map_err(|err| err.to_string())?;
    let mut out = Vec::with_capacity(capacity);
    entry.read_to_end(&mut out).map_err(|err| err.to_string())?;
    Ok(out)
}


pub open spec fn first_bin_entry() -> Seq<char> {
    "xl/vbaProject.bin"@
}

pub open spec fn second_bin_entry() -> Seq<char> {
    "xl/macros/vbaProject.bin"@
}

/// Reading the entry `name` of recorded size `size`: refused when the size
/// does not fit in memory or exceeds the limit, else its contents.
pub open spec fn entry_read_spec(bytes: Seq<u8>, name: Seq<char>, size: u64, display: Seq<char>) -> (Option<Seq<u8>>, Seq<Seq<char>>) {
    if size > usize::MAX {
        (None, seq!["workbook entry "@ + name + " is too large to inspect"@])
    } else if size > MAX_VBA_PROJECT_BIN_BYTES {
        (None, seq!["workbook entry "@ + name + " exceeds 16777216 bytes"@])
    } else {
        match zip_entry_contents_of(bytes, name) {
            Ok(c) => (Some(c), Seq::empty()),
            Err(e) => (
                None,
                seq!["failed to read workbook entry "@ + name + " in "@ + display + ": "@ + e],
            ),
        }
    }
}

/// The `vbaProject.bin` of the archive in `bytes` (looked up at its two
/// usual places) and the warnings that reading it gives.
pub open spec fn read_bin_spec(bytes: Seq<u8>, display: Seq<char>) -> (Option<Seq<u8>>, Seq<Seq<char>>) {
    match zip_entry_size_of(bytes, first_bin_entry()) {
        Some(size) => entry_read_spec(bytes, first_bin_entry(), size, display),
        None => match zip_entry_size_of(bytes, second_bin_entry()) {
            Some(size) => entry_read_spec(bytes, second_bin_entry(), size, display),
            None => (None, seq!["no VBA project binary was found in the workbook"@]),
        },
    }
}

fn read_entry(bytes: &Vec<u8>, name: &str, size: u64, display_path: &str, warnings: &mut Vec<String>) -> (r: Option<Vec<u8>>)
    ensures
        ({
            let e = entry_read_spec(bytes@, name@, size, display_path@);
            &&& final(warnings).deep_view() == old(warnings).deep_view() + e.1
            &&& match (r, e.0) {
                (Some(b), Some(c)) => b@ == c,
                (None, None) => true,
                _ => false,
            }
        }),
{
    let ghost before = warnings.deep_view();
    if size > usize::MAX as u64 {
        let mut w = owned("workbook entry ");
        append_str(&mut w, name);
        append_str(&mut w, " is too large to inspect");
        warnings.push(w);
        assert(warnings.deep_view() =~= before + entry_read_spec(bytes@, name@, size, display_path@).1);
        return None;
    }
    let entry_size = size as usize;
    if entry_size > MAX_VBA_PROJECT_BIN_BYTES {
        let mut w = owned("workbook entry ");
        append_str(&mut w, name);
        append_str(&mut w, " exceeds 16777216 bytes");
        warnings.push(w);
        assert(warnings.deep_view() =~= before + entry_read_spec(bytes@, name@, size, display_path@).1);
        return None;
    }
    match zip_entry_read(bytes, name, entry_size) {
        Ok(contents) => {
            assert(warnings.deep_view() =~= before + entry_read_spec(bytes@, name@, size, display_path@).1);
            Some(contents)
        },
        Err(err) => {
            let mut w = owned("failed to read workbook entry ");
            append_str(&mut w, name);
            append_str(&mut w, " in ");
            append_str(&mut w, display_path);
            append_str(&mut w, ": ");
            append_str(&mut w, err.as_str());
            warnings.push(w);
            assert(warnings.deep_view() =~= before + entry_read_spec(bytes@, name@, size, display_path@).1);
            None
        },
    }
}

pub fn read_vba_project_bin(bytes: &Vec<u8>, display_path: &str, warnings: &mut Vec<String>) -> (r: Option<Vec<u8>>)
    ensures
        ({
            let e = read_bin_spec(bytes@, display_path@);
            &&& final(warnings).deep_view() == old(warnings).deep_view() + e.1
            &&& match (r, e.0) {
                (Some(b), Some(c)) => b@ == c,
                (None, None) => true,
                _ => false,
            }
        }),
{
    match zip_entry_size(bytes, "xl/vbaProject.bin") {
        Some(size) => read_entry(bytes, "xl/vbaProject.bin", size, display_path, warnings),
        None => match zip_entry_size(bytes, "xl/macros/vbaProject.bin") {
            Some(size) => read_entry(bytes, "xl/macros/vbaProject.bin", size, display_path, warnings),
            None => {
                let ghost before = warnings.deep_view();
                warnings.push(owned("no VBA project binary was found in the workbook"));
                assert(warnings.deep_view() =~= before + read_bin_spec(bytes@, display_path@).1);
                None
            },
        },
    }
}


#[verifier::external_type_specification]
#[verifier::external_body]
pub struct ExVbaProject(ovba::Project);

/// A module's record in the project.
pub struct VbaModuleEntry {
    pub name: String,
    pub stream_name: String,
    pub module_kind: VbaModuleKind,
    pub text_offset: usize,
    pub read_only: bool,
    pub private: bool,
    pub doc_string: String,
}

/// A module's record with the outcome of reading its source.
pub struct VbaModuleRecord {
    pub entry: VbaModuleEntry,
    pub source: Result<String, String>,
}

pub struct RecordModel {
    pub name: Seq<char>,
    pub stream_name: Seq<char>,
    pub module_kind: VbaModuleKind,
    pub text_offset: nat,
    pub read_only: bool,
    pub private: bool,
    pub doc_string: Seq<char>,
    pub source: Result<Seq<char>, Seq<char>>,
}

impl View for VbaModuleRecord {
    type V = RecordModel;

    open spec fn view(&self) -> RecordModel {
        RecordModel {
            name: self.entry.name@,
            stream_name: self.entry.stream_name@,
            module_kind: self.entry.module_kind,
            text_offset: self.entry.text_offset as nat,
            read_only: self.entry.read_only,
            private: self.entry.private,
            doc_string: self.entry.doc_string@,
            source: match self.source {
                Ok(t) => Ok(t@),
                Err(e) => Err(e@),
            },
        }
    }
}

pub open spec fn records_view(v: Seq<VbaModuleRecord>) -> Seq<RecordModel> {
    v.map_values(|r: VbaModuleRecord| r@)
}

/// One module that a parsed project lists: name, stream name, kind, text
/// offset, read-only flag, private flag, doc string, and what reading its
/// source gives (its text, or the error's text).
pub type ProjectModule = (Seq<char>, Seq<char>, VbaModuleKind, nat, bool, bool, Seq<char>, Result<Seq<char>, Seq<char>>);

/// The modules that a parsed project holds (`Project::modules`), in order,
/// each with the outcome of reading its source stream.
pub uninterp spec fn project_modules_of(project: ovba::Project) -> Seq<ProjectModule>;

/// The code page that a parsed project records (`information.code_page`).
pub uninterp spec fn project_code_page_of(project: ovba::Project) -> u16;

/// The bytes of the compound file that a project was opened from.
pub uninterp spec fn project_bin_of(project: ovba::Project) -> Seq<u8>;

/// What `ovba::open_project` makes of `bin`: the project's code page, its
/// modules (as [`ProjectModule`]s) and the kinds of its references, or the
/// error's display text.
pub uninterp spec fn vba_project_in(bin: Seq<u8>) -> Result<
    (u16, Seq<ProjectModule>, Seq<VbaReferenceKind>),
    Seq<char>,
>;

/// The contents of the stream at `path` in the compound file that `bytes`
/// hold, if they open as one and hold that stream.
pub uninterp spec fn cfb_stream_of(bytes: Seq<u8>, path: Seq<char>) -> Option<Seq<u8>>;

/// Whether `codepage::to_encoding` maps the code page to an encoding.
pub uninterp spec fn code_page_has_encoding(code_page: u16) -> bool;

pub open spec fn opt_bytes(o: Option<Vec<u8>>) -> Option<Seq<u8>> {
    match o {
        Some(v) => Some(v@),
        None => None,
    }
}

/// Opens the bytes with `cfb::CompoundFile::open` and reads the stream at
/// `path` to its end; `None` where either step fails.
#[verifier::external_body]
fn read_cfb_stream(bytes: &Vec<u8>, path: &str) -> (r: Option<Vec<u8>>)
    ensures
        opt_bytes(r) == cfb_stream_of(bytes@, path@),
{
    let mut file = cfb::CompoundFile::open(std::io::Cursor::new(bytes.clone())).ok()?;
    let mut stream = file.open_stream(path).ok()?;
    let mut out = Vec::new();
    stream.read_to_end(&mut out).ok()?;
    Some(out)
}

/// Calls `codepage::to_encoding` and tells whether it found an encoding.
#[verifier::external_body]
fn code_page_is_known(code_page: u16) -> (r: bool)
    ensures
        r == code_page_has_encoding(code_page),
{
    codepage::to_encoding(code_page).is_some()
}

/// Whether the parser can be given a project whose `dir` stream is `dir`
/// (as the compound file holds it) without faulting: the stream is missing,
/// or its container is refused, or it decompresses to bytes whose recorded
/// code page (if the leading records are well formed) has an encoding and
/// whose record parse, where it succeeds, reads every byte.
pub open spec fn dir_stream_is_safe(dir: Option<Seq<u8>>) -> bool {
    match dir {
        None => true,
        Some(raw) => match unpack_container(raw) {
            Unpacked::Faulted => false,
            Unpacked::Refused => true,
            Unpacked::Done(d) => dir_parse_uses_all(d) && match dir_code_page(d) {
                Some(cp) => code_page_has_encoding(cp),
                None => true,
            },
        },
    }
}

/// Checks a project's `dir` stream before the project is parsed.
pub fn vba_dir_stream_is_safe(dir: &Option<Vec<u8>>) -> (r: bool)
    ensures
        r == dir_stream_is_safe(opt_bytes(*dir)),
{
    match dir {
        None => true,
        Some(raw) => match unpack_compressed_container(raw.as_slice()) {
            Unpacking::Faulted => false,
            Unpacking::Refused => true,
            Unpacking::Done(d) => {
                if !dir_stream_parse_uses_all(d.as_slice()) {
                    return false;
                }
                match dir_stream_code_page(d.as_slice()) {
                    Some(cp) => code_page_is_known(cp),
                    None => true,
                }
            },
        },
    }
}

/// Calls `ovba::open_project`. The project's code page, modules and
/// reference kinds are what [`vba_project_in`] names for the bytes, and
/// the error is its display text. A project that opens has a code page
/// with an encoding, since its name was decoded with it. The bytes are
/// only handed over once their `dir` stream passed the checks that keep
/// the parser from faulting.
#[verifier::external_body]
fn open_vba_project(bin: Vec<u8>) -> (r: Result<ovba::Project, String>)
    requires
        dir_stream_is_safe(cfb_stream_of(bin@, "/VBA/dir"@)),
    ensures
        match (r, vba_project_in(bin@)) {
            (Ok(p), Ok(t)) => {
                &&& project_code_page_of(p) == t.0
                &&& project_modules_of(p) == t.1
                &&& crate::vba_project_metadata::project_references_of(p) == t.2
                &&& project_bin_of(p) == bin@
                &&& code_page_has_encoding(t.0)
            },
            (Err(e), Err(f)) => e@ == f,
            _ => false,
        },
{
    ovba::open_project(bin).map_err(|err| err.to_string())
}

/// Calls `Project::read_stream`: the stream at `path` of the compound file
/// that the project was opened from, `None` where it cannot be read.
#[verifier::external_body]
fn vba_project_stream(project: &ovba::Project, path: &str) -> (r: Option<Vec<u8>>)
    ensures
        opt_bytes(r) == cfb_stream_of(project_bin_of(*project), path@),
{
    project.read_stream(path).ok()
}

/// Reads `project.information.code_page`.
#[verifier::external_body]
fn vba_project_code_page(project: &ovba::Project) -> (r: u16)
    ensures
        r == project_code_page_of(*project),
{
    project.information.code_page
}

/// Reads `project.modules.len()`.
#[verifier::external_body]
pub(crate) fn vba_project_module_count(project: &ovba::Project) -> (r: usize)
    ensures
        r == project_modules_of(*project).len(),
{
    project.modules.len()
}

/// The index of the first module named `name`, from index `i` on.
pub open spec fn module_named_from(modules: Seq<ProjectModule>, name: Seq<char>, i: int) -> Option<int>
    decreases modules.len() - i,
{
    if i < 0 || i >= modules.len() {
        None
    } else if modules[i].0 == name {
        Some(i)
    } else {
        module_named_from(modules, name, i + 1)
    }
}

/// What `Project::module_source` gives for the module `name`: the source
/// read for the first module of that name, an error when there is none.
pub open spec fn module_source_spec(modules: Seq<ProjectModule>, name: Seq<char>) -> Option<Result<Seq<char>, Seq<char>>> {
    match module_named_from(modules, name, 0) {
        Some(i) => Some(modules[i].7),
        None => None,
    }
}

/// The path of a module's stream in the compound file.
pub open spec fn module_stream_path(stream_name: Seq<char>) -> Seq<char> {
    "/VBA/"@ + stream_name
}

/// Whether a module's source can be decompressed from `stream` (as the
/// compound file holds it) at `offset` without faulting: the stream is
/// missing, or the offset lies within it and the container from there on
/// does not fault.
pub open spec fn module_stream_is_safe(stream: Option<Seq<u8>>, offset: nat) -> bool {
    match stream {
        None => true,
        Some(data) => offset <= data.len() && !(unpack_container(data.subrange(offset as int, data.len() as int)) is Faulted),
    }
}

/// Whether reading the source of the module `name` (the first of that
/// name) from the compound file `bin` stays clear of faults.
pub open spec fn module_source_is_safe(modules: Seq<ProjectModule>, name: Seq<char>, bin: Seq<u8>) -> bool {
    match module_named_from(modules, name, 0) {
        None => true,
        Some(i) => module_stream_is_safe(cfb_stream_of(bin, module_stream_path(modules[i].1)), modules[i].3),
    }
}

/// Checks a module's stream at its text offset.
pub fn module_stream_ok(stream: &Option<Vec<u8>>, offset: usize) -> (r: bool)
    ensures
        r == module_stream_is_safe(opt_bytes(*stream), offset as nat),
{
    match stream {
        None => true,
        Some(data) => {
            if offset > data.len() {
                return false;
            }
            let tail = vstd::slice::slice_subrange(data.as_slice(), offset, data.len());
            match unpack_compressed_container(tail) {
                Unpacking::Faulted => false,
                _ => true,
            }
        },
    }
}

/// Calls `Project::module_source` for the module `name`: the source of the
/// first module of that name (decoded with the project's code page), or the
/// error's display text; an error when no module has that name. Called
/// only where reading that module's stream stays clear of faults and the
/// code page has an encoding.
#[verifier::external_body]
fn vba_module_source(project: &ovba::Project, name: &str) -> (r: Result<String, String>)
    requires
        code_page_has_encoding(project_code_page_of(*project)),
        module_source_is_safe(project_modules_of(*project), name@, project_bin_of(*project)),
    ensures
        match module_source_spec(project_modules_of(*project), name@) {
            Some(outcome) => match (r, outcome) {
                (Ok(t), Ok(u)) => t@ == u,
                (Err(e), Err(f)) => e@ == f,
                _ => false,
            },
            None => r is Err,
        },
{
    project.module_source(name).map_err(|err| err.to_string())
}

pub open spec fn entry_view(e: VbaModuleEntry) -> (Seq<char>, Seq<char>, VbaModuleKind, nat, bool, bool, Seq<char>) {
    (e.name@, e.stream_name@, e.module_kind, e.text_offset as nat, e.read_only, e.private, e.doc_string@)
}

pub open spec fn module_fields(m: ProjectModule) -> (Seq<char>, Seq<char>, VbaModuleKind, nat, bool, bool, Seq<char>) {
    (m.0, m.1, m.2, m.3, m.4, m.5, m.6)
}

/// Copies the fields of `project.modules[index]`, `None` past the end.
#[verifier::external_body]
pub(crate) fn vba_project_module(project: &ovba::Project, index: usize) -> (r: Option<VbaModuleEntry>)
    ensures
        match r {
            Some(e) => index < project_modules_of(*project).len() && entry_view(e) == module_fields(
                project_modules_of(*project)[index as int],
            ),
            None => index >= project_modules_of(*project).len(),
        },
{
    let module = project.modules.get(index)?;
    Some(VbaModuleEntry {
        name: module.name.clone(),
        stream_name: module.stream_name.clone(),
        module_kind: match module.module_type {
            ovba::ModuleType::Procedural => VbaModuleKind::Procedural,
            ovba::ModuleType::DocClsDesigner => VbaModuleKind::DocClsDesigner,
        },
        text_offset: module.text_offset,
        read_only: module.read_only,
        private: module.private,
        doc_string: module.doc_string.clone(),
    })
}

/// The text given for a module whose compressed source stream is malformed.
pub open spec fn malformed_source_message() -> Seq<char> {
    "the module's compressed source stream is malformed"@
}

/// What reading the source of the module `name` gives, from the modules of
/// the project that `bin` holds: the source of the first module of that
/// name, unless its stream is malformed.
pub open spec fn source_outcome(modules: Seq<ProjectModule>, name: Seq<char>, bin: Seq<u8>, own: Result<Seq<char>, Seq<char>>) -> Result<Seq<char>, Seq<char>> {
    match module_named_from(modules, name, 0) {
        Some(j) => if module_source_is_safe(modules, name, bin) {
            modules[j].7
        } else {
            Err(malformed_source_message())
        },
        None => own,
    }
}

/// The record of module `i` of the project that `bin` holds: its fields
/// and what reading its source by name gives.
pub open spec fn project_record(modules: Seq<ProjectModule>, i: int, bin: Seq<u8>) -> RecordModel {
    let m = modules[i];
    RecordModel {
        name: m.0,
        stream_name: m.1,
        module_kind: m.2,
        text_offset: m.3,
        read_only: m.4,
        private: m.5,
        doc_string: m.6,
        source: source_outcome(modules, m.0, bin, m.7),
    }
}

/// The records of the first modules of a project, at most 16 of them.
pub open spec fn project_records(modules: Seq<ProjectModule>, bin: Seq<u8>) -> Seq<RecordModel> {
    let n = if modules.len() <= MAX_EXTRACTED_MODULES { modules.len() } else { MAX_EXTRACTED_MODULES as nat };
    Seq::new(n, |i: int| project_record(modules, i, bin))
}

/// The modules extracted from a project (given by its modules and the bytes
/// it was opened from) and the warnings that extracting them adds.
pub open spec fn modules_extraction(modules: Seq<ProjectModule>, bin: Seq<u8>) -> (Seq<ExtractedModuleModel>, Seq<Seq<char>>) {
    collect_modules_spec(project_records(modules, bin), modules.len())
}

/// The index of the first module named `name`.
fn first_module_named(project: &ovba::Project, name: &str) -> (r: Option<usize>)
    ensures
        match r {
            Some(k) => module_named_from(project_modules_of(*project), name@, 0) == Some(k as int),
            None => module_named_from(project_modules_of(*project), name@, 0) is None,
        },
{
    let ghost mods = project_modules_of(*project);
    let total = vba_project_module_count(project);
    let mut j: usize = 0;
    while j < total
        invariant
            mods == project_modules_of(*project),
            total == mods.len(),
            j <= total,
            module_named_from(mods, name@, 0) == module_named_from(mods, name@, j as int),
        decreases total - j,
    {
        match vba_project_module(project, j) {
            Some(entry) => {
                if starts_with_str(entry.name.as_str(), name) && starts_with_str(name, entry.name.as_str()) {
                    assert(entry.name@ =~= name@);
                    return Some(j);
                }
                proof {
                    if mods[j as int].0 == name@ {
                        assert(name@.subrange(0, name@.len() as int) =~= name@);
                    }
                }
            },
            None => {
                assert(false);
            },
        }
        j += 1;
    }
    None
}

/// Reads the source of the module `name` (the first of that name), after
/// checking its stream; a malformed stream gives an error of its own.
fn read_module_source(project: &ovba::Project, name: &str) -> (r: Result<String, String>)
    requires
        code_page_has_encoding(project_code_page_of(*project)),
    ensures
        match module_named_from(project_modules_of(*project), name@, 0) {
            Some(j) => match (r, source_outcome(project_modules_of(*project), name@, project_bin_of(*project), Err(Seq::empty()))) {
                (Ok(t), Ok(u)) => t@ == u,
                (Err(e), Err(f)) => e@ == f,
                _ => false,
            },
            None => r is Err,
        },
{
    let ghost mods = project_modules_of(*project);
    proof {
        lemma_module_named_from_is(mods, name@, 0);
    }
    match first_module_named(project, name) {
        None => vba_module_source(project, name),
        Some(j) => match vba_project_module(project, j) {
            Some(entry) => {
                let mut path = owned("/VBA/");
                append_str(&mut path, entry.stream_name.as_str());
                let stream = vba_project_stream(project, path.as_str());
                assert(entry_view(entry) == module_fields(mods[j as int]));
                assert(path@ == module_stream_path(mods[j as int].1));
                if module_stream_ok(&stream, entry.text_offset) {
                    vba_module_source(project, name)
                } else {
                    Err(owned("the module's compressed source stream is malformed"))
                }
            },
            None => {
                assert(false);
                Err(owned(""))
            },
        },
    }
}

/// Extracts the first 16 modules of a parsed project, with their warnings.
pub fn extract_modules_from_project(project: &ovba::Project, warnings: &mut Vec<String>) -> (r: Vec<ExtractedVbaModule>)
    requires
        code_page_has_encoding(project_code_page_of(*project)),
    ensures
        ({
            let x = modules_extraction(project_modules_of(*project), project_bin_of(*project));
            &&& modules_view(r@) == x.0
            &&& final(warnings).deep_view() == old(warnings).deep_view() + x.1
        }),
{
    let ghost mods = project_modules_of(*project);
    let ghost bin = project_bin_of(*project);
    let module_total = vba_project_module_count(project);
    let mut records: Vec<VbaModuleRecord> = Vec::new();
    let mut index: usize = 0;
    while index < module_total && index < MAX_EXTRACTED_MODULES
        invariant
            mods == project_modules_of(*project),
            bin == project_bin_of(*project),
            code_page_has_encoding(project_code_page_of(*project)),
            module_total == mods.len(),
            index <= MAX_EXTRACTED_MODULES,
            index <= module_total,
            records@.len() == index,
            forall|j: int| 0 <= j < index ==> #[trigger] records@[j]@ == project_record(mods, j, bin),
        decreases MAX_EXTRACTED_MODULES - index,
    {
        match vba_project_module(project, index) {
            Some(entry) => {
                let source = read_module_source(project, entry.name.as_str());
                let ghost m = mods[index as int];
                assert(entry.name@ == m.0);
                proof {
                    assert(module_named_from(mods, m.0, index as int) is Some);
                    lemma_module_named_from_found(mods, m.0, 0, index as int);
                }
                let rec = VbaModuleRecord { entry, source };
                assert(rec@ == project_record(mods, index as int, bin));
                records.push(rec);
            },
            None => {
                assert(false);
            },
        }
        index += 1;
    }
    assert(records_view(records@) =~= project_records(mods, bin));
    collect_extracted_modules(records, module_total, warnings)
}

proof fn lemma_module_named_from_is(modules: Seq<ProjectModule>, name: Seq<char>, i: int)
    requires
        0 <= i,
    ensures
        module_named_from(modules, name, i) matches Some(k) ==> i <= k < modules.len() && modules[k].0 == name,
    decreases modules.len() - i,
{
    if i < modules.len() && modules[i].0 != name {
        lemma_module_named_from_is(modules, name, i + 1);
    }
}

proof fn lemma_module_named_from_found(modules: Seq<ProjectModule>, name: Seq<char>, i: int, k: int)
    requires
        0 <= i <= k < modules.len(),
        modules[k].0 == name,
    ensures
        module_named_from(modules, name, i) is Some,
    decreases k - i,
{
    if modules[i].0 != name {
        lemma_module_named_from_found(modules, name, i + 1, k);
    }
}

/// The extracted modules and the added warnings after the first `k` records.
pub open spec fn extract_fold(records: Seq<RecordModel>, k: nat) -> (Seq<ExtractedModuleModel>, Seq<Seq<char>>)
    decreases k,
{
    if k == 0 {
        (Seq::empty(), Seq::empty())
    } else {
        let prev = extract_fold(records, (k - 1) as nat);
        let rec = records[k - 1];
        match rec.source {
            Err(e) => (prev.0, prev.1.push("failed to read VBA module "@ + rec.name + ": "@ + e)),
            Ok(text) => {
                let src = bounded_seq(text, MAX_MODULE_SOURCE_CHARS as nat);
                let doc = bounded_seq(rec.doc_string, MAX_MODULE_DOC_CHARS as nat);
                let w = if src.1 {
                    prev.1.push("VBA module "@ + rec.name + " source truncated to 4096 characters"@)
                } else {
                    prev.1
                };
                let w = if doc.1 {
                    w.push("VBA module "@ + rec.name + " doc_string truncated to 512 characters"@)
                } else {
                    w
                };
                (
                    prev.0.push(
                        ExtractedModuleModel {
                            name: rec.name,
                            stream_name: rec.stream_name,
                            module_kind: rec.module_kind,
                            text_offset: rec.text_offset,
                            read_only: rec.read_only,
                            private: rec.private,
                            doc_string: doc.0,
                            source: src.0,
                            source_truncated: src.1,
                        },
                    ),
                    w,
                )
            },
        }
    }
}

/// The modules of a project (of `module_total` modules) whose first
/// records are given, and the warnings that extracting them adds.
pub open spec fn collect_modules_spec(records: Seq<RecordModel>, module_total: nat) -> (Seq<ExtractedModuleModel>, Seq<Seq<char>>) {
    let head = if module_total > MAX_EXTRACTED_MODULES {
        seq!["VBA module list truncated to 16 of "@ + decimal(module_total) + " entries"@]
    } else {
        Seq::empty()
    };
    let body = extract_fold(records, records.len());
    (body.0, head + body.1)
}

pub fn collect_extracted_modules(records: Vec<VbaModuleRecord>, module_total: usize, warnings: &mut Vec<String>) -> (r: Vec<ExtractedVbaModule>)
    ensures
        ({
            let c = collect_modules_spec(records_view(records@), module_total as nat);
            &&& modules_view(r@) == c.0
            &&& final(warnings).deep_view() == old(warnings).deep_view() + c.1
        }),
{
    let ghost rv = records_view(records@);
    let ghost w0 = warnings.deep_view();
    if module_total > MAX_EXTRACTED_MODULES {
        let mut w = owned("VBA module list truncated to 16 of ");
        let digits = decimal_string(module_total);
        append_str(&mut w, digits.as_str());
        append_str(&mut w, " entries");
        warnings.push(w);
    }
    let ghost w1 = warnings.deep_view();
    assert(w1 =~= w0 + (if module_total > MAX_EXTRACTED_MODULES {
        seq!["VBA module list truncated to 16 of "@ + decimal(module_total as nat) + " entries"@]
    } else {
        Seq::<Seq<char>>::empty()
    }));
    let mut modules: Vec<ExtractedVbaModule> = Vec::new();
    let mut i: usize = 0;
    assert(modules_view(modules@) =~= extract_fold(rv, 0).0);
    assert(w1 + extract_fold(rv, 0).1 =~= w1);
    while i < records.len()
        invariant
            rv == records_view(records@),
            i <= records@.len(),
            modules_view(modules@) == extract_fold(rv, i as nat).0,
            warnings.deep_view() == w1 + extract_fold(rv, i as nat).1,
        decreases records@.len() - i,
    {
        let rec = &records[i];
        assert(rv[i as int] == rec@);
        let ghost before_w = warnings.deep_view();
        let ghost before_m = modules_view(modules@);
        match &rec.source {
            Err(err) => {
                assert(rv[i as int].source == Err::<Seq<char>, Seq<char>>(err@));
                let mut w = owned("failed to read VBA module ");
                append_str(&mut w, rec.entry.name.as_str());
                append_str(&mut w, ": ");
                append_str(&mut w, err.as_str());
                let ghost wv = w@;
                warnings.push(w);
                assert(warnings.deep_view() =~= before_w.push(wv));
                assert(extract_fold(rv, (i + 1) as nat).1 == extract_fold(rv, i as nat).1.push(wv));
                assert(warnings.deep_view() =~= w1 + extract_fold(rv, (i + 1) as nat).1);
            },
            Ok(text) => {
                assert(rv[i as int].source == Ok::<Seq<char>, Seq<char>>(text@));
                let (source, source_truncated) = bounded_text(text.as_str(), MAX_MODULE_SOURCE_CHARS);
                let (doc_string, doc_truncated) = bounded_text(rec.entry.doc_string.as_str(), MAX_MODULE_DOC_CHARS);
                let ghost f = extract_fold(rv, i as nat).1;
                let ghost ws1 = if source_truncated {
                    f.push("VBA module "@ + rec.entry.name@ + " source truncated to 4096 characters"@)
                } else {
                    f
                };
                let ghost ws2 = if doc_truncated {
                    ws1.push("VBA module "@ + rec.entry.name@ + " doc_string truncated to 512 characters"@)
                } else {
                    ws1
                };
                if source_truncated {
                    let mut w = owned("VBA module ");
                    append_str(&mut w, rec.entry.name.as_str());
                    append_str(&mut w, " source truncated to 4096 characters");
                    let ghost pre = warnings.deep_view();
                    warnings.push(w);
                    assert(warnings.deep_view() =~= pre.push("VBA module "@ + rec.entry.name@ + " source truncated to 4096 characters"@));
                }
                assert(warnings.deep_view() =~= w1 + ws1);
                if doc_truncated {
                    let mut w = owned("VBA module ");
                    append_str(&mut w, rec.entry.name.as_str());
                    append_str(&mut w, " doc_string truncated to 512 characters");
                    let ghost pre = warnings.deep_view();
                    warnings.push(w);
                    assert(warnings.deep_view() =~= pre.push("VBA module "@ + rec.entry.name@ + " doc_string truncated to 512 characters"@));
                }
                assert(warnings.deep_view() =~= w1 + ws2);
                assert(extract_fold(rv, (i + 1) as nat).1 == ws2);
                assert(warnings.deep_view() =~= w1 + extract_fold(rv, (i + 1) as nat).1);
                let m = ExtractedVbaModule {
                    name: rec.entry.name.clone(),
                    stream_name: rec.entry.stream_name.clone(),
                    module_kind: rec.entry.module_kind,
                    text_offset: rec.entry.text_offset,
                    read_only: rec.entry.read_only,
                    private: rec.entry.private,
                    doc_string,
                    source,
                    source_truncated,
                };
                modules.push(m);
                assert(modules_view(modules@) =~= extract_fold(rv, (i + 1) as nat).0);
            },
        }
        i += 1;
    }
    assert(warnings.deep_view() =~= w0 + collect_modules_spec(rv, module_total as nat).1);
    modules
}


pub open spec fn workbook_view(workbook: Result<Vec<u8>, String>) -> Result<Seq<u8>, Seq<char>> {
    match workbook {
        Ok(b) => Ok(b@),
        Err(e) => Err(e@),
    }
}

/// The `vbaProject.bin` read from a workbook's bytes (or the error of
/// reading the workbook), and the warnings of that stage.
pub open spec fn read_stage(workbook: Result<Seq<u8>, Seq<char>>, display: Seq<char>) -> (Option<Seq<u8>>, Seq<Seq<char>>) {
    match workbook {
        Err(e) => (None, seq!["failed to open workbook "@ + display + ": "@ + e]),
        Ok(bytes) => match zip_open_error_of(bytes) {
            Some(e) => (None, seq!["failed to read workbook archive "@ + display + ": "@ + e]),
            None => read_bin_spec(bytes, display),
        },
    }
}

/// The text given for a project whose `dir` stream is malformed.
pub open spec fn malformed_dir_message() -> Seq<char> {
    "the VBA project's dir stream is malformed"@
}

/// What parsing the project `bin` gives: its code page, modules and
/// reference kinds, or the error's text. A `dir` stream that would make
/// the parser fault is refused before the parser sees it.
pub open spec fn parse_outcome(bin: Seq<u8>) -> Result<(u16, Seq<ProjectModule>, Seq<VbaReferenceKind>), Seq<char>> {
    if dir_stream_is_safe(cfb_stream_of(bin, "/VBA/dir"@)) {
        vba_project_in(bin)
    } else {
        Err(malformed_dir_message())
    }
}

pub open spec fn oversized_bin_warning() -> Seq<char> {
    "vbaProject.bin exceeds 16777216 bytes and was not parsed"@
}

/// The parts of the project that a workbook holds (its code page, modules
/// and reference kinds) if it could be read and parsed, and the warnings
/// of reading and parsing it.
pub open spec fn parse_stage(workbook: Result<Seq<u8>, Seq<char>>, display_path: Seq<char>) -> (
    Option<(u16, Seq<ProjectModule>, Seq<VbaReferenceKind>)>,
    Seq<Seq<char>>,
) {
    let st = read_stage(workbook, display_path);
    match st.0 {
        None => (None, st.1),
        Some(bin) => if bin.len() > MAX_VBA_PROJECT_BIN_BYTES {
            (None, st.1.push(oversized_bin_warning()))
        } else {
            match parse_outcome(bin) {
                Ok(t) => (Some(t), st.1),
                Err(e) => (None, st.1.push("failed to parse vbaProject.bin: "@ + e)),
            }
        },
    }
}

/// The VBA project found in a workbook, if it could be parsed.
pub struct ParsedVbaProjectResult {
    pub has_vba_project: bool,
    pub code_page: Option<u16>,
    pub project: Option<ovba::Project>,
    pub warnings: Vec<String>,
}

pub fn parse_vba_project_from_workbook(workbook: Result<Vec<u8>, String>, display_path: &str) -> (r: ParsedVbaProjectResult)
    ensures
        ({
            let st = read_stage(workbook_view(workbook), display_path@);
            &&& r.has_vba_project == st.0 is Some
            &&& r.warnings@.len() <= 2
            &&& match st.0 {
                None => r.project is None && r.code_page is None && r.warnings.deep_view() == st.1,
                Some(bin) => if bin.len() > MAX_VBA_PROJECT_BIN_BYTES {
                    r.project is None && r.code_page is None && r.warnings.deep_view() == st.1.push(oversized_bin_warning())
                } else {
                    match parse_outcome(bin) {
                        Ok(t) => {
                            &&& r.project matches Some(p)
                            &&& r.code_page == Some(t.0)
                            &&& project_code_page_of(p) == t.0
                            &&& project_modules_of(p) == t.1
                            &&& crate::vba_project_metadata::project_references_of(p) == t.2
                            &&& project_bin_of(p) == bin
                            &&& code_page_has_encoding(t.0)
                            &&& r.warnings.deep_view() == st.1
                        },
                        Err(e) => r.project is None && r.code_page is None && r.warnings.deep_view() == st.1.push(
                            "failed to parse vbaProject.bin: "@ + e,
                        ),
                    }
                },
            }
        }),
{
    let ghost wv = workbook_view(workbook);
    assert(read_stage(wv, display_path@).1.len() <= 1);
    let mut warnings: Vec<String> = Vec::new();
    let bytes = match workbook {
        Ok(b) => b,
        Err(err) => {
            let mut w = owned("failed to open workbook ");
            append_str(&mut w, display_path);
            append_str(&mut w, ": ");
            append_str(&mut w, err.as_str());
            warnings.push(w);
            assert(warnings.deep_view() =~= read_stage(wv, display_path@).1);
            return ParsedVbaProjectResult { has_vba_project: false, code_page: None, project: None, warnings };
        },
    };
    if let Some(err) = zip_open_error(&bytes) {
        let mut w = owned("failed to read workbook archive ");
        append_str(&mut w, display_path);
        append_str(&mut w, ": ");
        append_str(&mut w, err.as_str());
        warnings.push(w);
        assert(warnings.deep_view() =~= read_stage(wv, display_path@).1);
        return ParsedVbaProjectResult { has_vba_project: false, code_page: None, project: None, warnings };
    }
    let bin = read_vba_project_bin(&bytes, display_path, &mut warnings);
    assert(warnings.deep_view() =~= read_stage(wv, display_path@).1);
    let bin = match bin {
        Some(b) => b,
        None => {
            return ParsedVbaProjectResult { has_vba_project: false, code_page: None, project: None, warnings };
        },
    };
    let ghost before = warnings.deep_view();
    if bin.len() > MAX_VBA_PROJECT_BIN_BYTES {
        warnings.push(owned("vbaProject.bin exceeds 16777216 bytes and was not parsed"));
        assert(warnings.deep_view() =~= before.push(oversized_bin_warning()));
        return ParsedVbaProjectResult { has_vba_project: true, code_page: None, project: None, warnings };
    }
    let dir = read_cfb_stream(&bin, "/VBA/dir");
    if !vba_dir_stream_is_safe(&dir) {
        let mut w = owned("failed to parse vbaProject.bin: ");
        append_str(&mut w, "the VBA project's dir stream is malformed");
        warnings.push(w);
        assert(warnings.deep_view() =~= before.push("failed to parse vbaProject.bin: "@ + malformed_dir_message()));
        return ParsedVbaProjectResult { has_vba_project: true, code_page: None, project: None, warnings };
    }
    match open_vba_project(bin) {
        Ok(project) => {
            let code_page = vba_project_code_page(&project);
            ParsedVbaProjectResult { has_vba_project: true, code_page: Some(code_page), project: Some(project), warnings }
        },
        Err(err) => {
            let mut w = owned("failed to parse vbaProject.bin: ");
            append_str(&mut w, err.as_str());
            warnings.push(w);
            assert(warnings.deep_view() =~= before.push("failed to parse vbaProject.bin: "@ + err@));
            ParsedVbaProjectResult { has_vba_project: true, code_page: None, project: None, warnings }
        },
    }
}

/// At most the first 16 warnings.
pub open spec fn first_warnings(w: Seq<Seq<char>>) -> Seq<Seq<char>> {
    if w.len() <= MAX_WARNINGS {
        w
    } else {
        w.take(MAX_WARNINGS as int)
    }
}

/// What extracting the modules of a workbook (given as its bytes, or the
/// message of the failed read) gives.
pub open spec fn extraction_spec(workbook: Result<Seq<u8>, Seq<char>>, display_path: Seq<char>) -> ExtractionModel {
    let st = read_stage(workbook, display_path);
    let none = ExtractionModel {
        mode: "read_only_extraction"@,
        path: display_path,
        has_vba_project: st.0 is Some,
        code_page: None,
        module_count: 0,
        modules: Seq::empty(),
        warnings: st.1,
    };
    match st.0 {
        None => none,
        Some(bin) => if bin.len() > MAX_VBA_PROJECT_BIN_BYTES {
            ExtractionModel { warnings: st.1.push(oversized_bin_warning()), ..none }
        } else {
            match parse_outcome(bin) {
                Err(e) => ExtractionModel { warnings: st.1.push("failed to parse vbaProject.bin: "@ + e), ..none },
                Ok(t) => {
                    let x = modules_extraction(t.1, bin);
                    ExtractionModel {
                        code_page: Some(t.0),
                        module_count: x.0.len(),
                        modules: x.0,
                        warnings: first_warnings(st.1 + x.1),
                        ..none
                    }
                },
            }
        },
    }
}

/// The shape that every extraction has: at most 16 modules, each bounded,
/// at most 16 warnings, and a module count that is the number of modules.
pub open spec fn extraction_is_bounded(x: ExtractionModel) -> bool {
    &&& x.module_count == x.modules.len()
    &&& x.modules.len() <= MAX_EXTRACTED_MODULES
    &&& forall|i: int| 0 <= i < x.modules.len() ==> module_is_bounded(#[trigger] x.modules[i])
    &&& x.warnings.len() <= MAX_WARNINGS
    &&& x.code_page is None ==> x.modules.len() == 0
}

pub fn extract_vba_modules_from_workbook(workbook: Result<Vec<u8>, String>, display_path: &str) -> (r: ExtractVbaModulesResult)
    ensures
        r@ == extraction_spec(workbook_view(workbook), display_path@),
        extraction_is_bounded(r@),
{
    let ghost wv = workbook_view(workbook);
    let ghost st = read_stage(wv, display_path@);
    let parsed = parse_vba_project_from_workbook(workbook, display_path);
    let ParsedVbaProjectResult { has_vba_project, code_page, project, mut warnings } = parsed;
    let project = match project {
        Some(p) => p,
        None => {
            let r = ExtractVbaModulesResult {
                mode: owned("read_only_extraction"),
                path: owned(display_path),
                has_vba_project,
                code_page,
                module_count: 0,
                modules: Vec::new(),
                warnings,
            };
            assert(modules_view(r.modules@) =~= Seq::empty());
            assert(r@ =~= extraction_spec(wv, display_path@));
            return r;
        },
    };
    let ghost w0 = warnings.deep_view();
    let modules = extract_modules_from_project(&project, &mut warnings);
    let ghost before = warnings.deep_view();
    warnings.truncate(MAX_WARNINGS);
    assert(warnings.deep_view() =~= first_warnings(before));
    proof {
        let recs = project_records(project_modules_of(project), project_bin_of(project));
        assert(modules_view(modules@).len() == modules@.len());
        lemma_extract_fold_len(recs, recs.len());
        assert(w0 == st.1);
    }
    let r = ExtractVbaModulesResult {
        mode: owned("read_only_extraction"),
        path: owned(display_path),
        has_vba_project,
        code_page,
        module_count: modules.len(),
        modules,
        warnings,
    };
    assert(r@ =~= extraction_spec(wv, display_path@));
    r
}

proof fn lemma_extract_fold_len(records: Seq<RecordModel>, k: nat)
    ensures
        extract_fold(records, k).0.len() <= k,
        forall|i: int|
            0 <= i < extract_fold(records, k).0.len() ==> module_is_bounded(#[trigger] extract_fold(records, k).0[i]),
    decreases k,
{
    if k > 0 {
        lemma_extract_fold_len(records, (k - 1) as nat);
    }
}

/// An extracted module keeps at most 4096 characters of source and 512 of
/// doc string; a module whose source was cut keeps exactly 4096 characters.
pub open spec fn module_is_bounded(m: ExtractedModuleModel) -> bool {
    &&& m.source.len() <= MAX_MODULE_SOURCE_CHARS
    &&& m.doc_string.len() <= MAX_MODULE_DOC_CHARS
    &&& m.source_truncated ==> m.source.len() == MAX_MODULE_SOURCE_CHARS
}

/// Whatever the project's modules hold, extraction never returns more
/// modules than were read, and every module it returns is bounded: at most
/// 4096 characters of source and 512 of doc string.
pub proof fn law_extracted_modules_are_bounded(records: Seq<RecordModel>, module_total: nat)
    ensures
        collect_modules_spec(records, module_total).0.len() <= records.len(),
        forall|i: int|
            0 <= i < collect_modules_spec(records, module_total).0.len() ==> module_is_bounded(
                #[trigger] collect_modules_spec(records, module_total).0[i],
            ),
{
    lemma_extract_fold_len(records, records.len());
}

/// Checks the workbook path that a model gave a tool named `tool_name`,
/// before the file system is looked at.
pub fn resolve_workbook_path_from_model_arg(tool_name: &str, path: &str, cwd: &str) -> (r: Result<ScopedPath, String>)
    ensures
        scoped_view(r) == scoped_outcome(
            tool_name@ + " path"@,
            "workbook path"@,
            ".xlsx, .xlsm, or .xlsb"@,
            path@,
            cwd@,
            seq!["xlsx"@, "xlsm"@, "xlsb"@],
        ),
{
    let mut label = owned(tool_name);
    append_str(&mut label, " path");
    let extensions = workbook_extensions();
    scoped_path_from_model_arg(label.as_str(), "workbook path", ".xlsx, .xlsm, or .xlsb", path, cwd, &extensions)
}

} // verus!
