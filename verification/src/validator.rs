//! The validation orchestrator: one already-read file per item, dispatched to
//! the scanner of its declared format, the findings folded into a report.
//! Also the extension-based format detection that the discovery collaborator
//! uses to declare a file's format.

use vstd::prelude::*;

use crate::config::ConfigModel;
use crate::config::ValidationConfig;
use crate::json::scan_json_content;
use crate::json::scan_json_model;
use crate::markdown::scan_markdown_content;
use crate::markdown::scan_markdown_model;
use crate::report::ValidationReport;
use crate::report::report_consistent;
use crate::text::str_eq;
use crate::verror::ErrorModel;
use crate::verror::ValidationError;
use crate::yaml::scan_yaml_content;
use crate::yaml::scan_yaml_model;

verus! {

broadcast use vstd::std_specs::vec::group_vec_axioms, vstd::seq::group_seq_axioms;

/// The closed set of content formats the orchestrator dispatches on.
#[derive(Debug, Clone, Copy, PartialEq, Eq, Structural)]
pub enum ContentFormat {
    Markdown,
    Json,
    Yaml,
}

/// The decoded textual content of one discovered file.
#[derive(Debug, Clone)]
pub struct ValidationItem {
    pub content: String,
}

/// One file as the orchestrator receives it: its path, its declared format,
/// and its already-read content.
#[derive(Debug, Clone)]
pub struct FileInput {
    pub path: String,
    pub format: ContentFormat,
    pub item: ValidationItem,
}

/// The mathematical content of one input file.
pub struct FileModel {
    pub path: Seq<char>,
    pub format: ContentFormat,
    pub content: Seq<char>,
}

impl View for FileInput {
    type V = FileModel;

    open spec fn view(&self) -> FileModel {
        FileModel { path: self.path@, format: self.format, content: self.item.content@ }
    }
}

impl DeepView for FileInput {
    type V = FileModel;

    open spec fn deep_view(&self) -> FileModel {
        self.view()
    }
}

/// The findings of one file under its declared format's scanner; `None` when
/// the content fails to decode (the file is then not counted as scanned).
pub open spec fn file_scan_model(f: FileModel, cfg: ConfigModel) -> Option<Seq<ErrorModel>> {
    match f.format {
        ContentFormat::Markdown => Option::Some(
            scan_markdown_model(
                f.content,
                f.path,
                cfg.discovery_mode,
                cfg.vendor_policy,
                cfg.skip_tokens,
            ),
        ),
        ContentFormat::Json => scan_json_model(f.content, f.path, cfg.vendor_policy, cfg.scan_keys),
        ContentFormat::Yaml => Option::Some(
            scan_yaml_model(f.content, f.path, cfg.vendor_policy, cfg.scan_keys),
        ),
    }
}

/// How many of the first `k` files are scanned, and their findings in file
/// order.
pub open spec fn run_rec(files: Seq<FileModel>, k: int, cfg: ConfigModel) -> (int, Seq<ErrorModel>)
    decreases k,
{
    if k <= 0 || k > files.len() {
        (0int, Seq::<ErrorModel>::empty())
    } else {
        let prev = run_rec(files, k - 1, cfg);
        match file_scan_model(files[k - 1], cfg) {
            Option::Some(errs) => (prev.0 + 1, prev.1 + errs),
            Option::None => prev,
        }
    }
}

/// The outcome of a whole run: scanned-file count and ordered findings.
pub open spec fn validate_model(files: Seq<FileModel>, cfg: ConfigModel) -> (int, Seq<ErrorModel>) {
    run_rec(files, files.len() as int, cfg)
}

/// Validates the given files under the given configuration.  Every file is
/// processed exactly once, in input order; a file whose content fails to
/// decode as its declared format is skipped silently and not counted as
/// scanned; findings keep per-file discovery order and input-file order.
pub fn validate_items(files: &Vec<FileInput>, config: &ValidationConfig) -> (r: ValidationReport)
    ensures
        r@.scanned_files == validate_model(files.deep_view(), config@).0,
        r@.errors == validate_model(files.deep_view(), config@).1,
        report_consistent(r@),
{
    let ghost fmodels = files.deep_view();
    let ghost cfg = config@;
    let mut errors: Vec<ValidationError> = Vec::new();
    let mut scanned: usize = 0;
    let n = files.len();
    let mut i: usize = 0;
    while i < n
        invariant
            0 <= i <= n == files@.len(),
            fmodels == files.deep_view(),
            cfg == config@,
            scanned <= i,
            scanned as int == run_rec(fmodels, i as int, cfg).0,
            errors.deep_view() =~= run_rec(fmodels, i as int, cfg).1,
        decreases n - i,
    {
        assert(files.deep_view()[i as int] == files@[i as int].deep_view());
        let file = &files[i];
        match file.format {
            ContentFormat::Markdown => {
                let mut file_errors = scan_markdown_content(
                    file.item.content.as_str(),
                    file.path.as_str(),
                    config,
                );
                let ghost fe = file_errors.deep_view();
                errors.append(&mut file_errors);
                scanned = scanned + 1;
                proof {
                    assert(errors.deep_view() =~= run_rec(fmodels, i as int, cfg).1 + fe);
                }
            },
            ContentFormat::Json => {
                match scan_json_content(
                    file.item.content.as_str(),
                    file.path.as_str(),
                    &config.vendor_policy,
                    config.scan_keys,
                ) {
                    Option::Some(mut file_errors) => {
                        let ghost fe = file_errors.deep_view();
                        errors.append(&mut file_errors);
                        scanned = scanned + 1;
                        proof {
                            assert(errors.deep_view() =~= run_rec(fmodels, i as int, cfg).1 + fe);
                        }
                    },
                    Option::None => {},
                }
            },
            ContentFormat::Yaml => {
                let mut file_errors = scan_yaml_content(
                    file.item.content.as_str(),
                    file.path.as_str(),
                    &config.vendor_policy,
                    config.scan_keys,
                );
                let ghost fe = file_errors.deep_view();
                errors.append(&mut file_errors);
                scanned = scanned + 1;
                proof {
                    assert(errors.deep_view() =~= run_rec(fmodels, i as int, cfg).1 + fe);
                }
            },
        }
        i = i + 1;
    }
    ValidationReport::new(scanned, errors)
}

/// The position of the last `c` within the first `e` characters, or -1.
pub open spec fn last_index_in(s: Seq<char>, c: char, e: int) -> int
    decreases e,
{
    if e <= 0 || e > s.len() {
        -1
    } else if s[e - 1] == c {
        e - 1
    } else {
        last_index_in(s, c, e - 1)
    }
}

/// The extension of a path: what follows the last `.` of its file name, the
/// name being what follows the last `/`.  A name without a `.`, or with its
/// only `.` first (a hidden file), has none.
pub open spec fn extension_of(path: Seq<char>) -> Option<Seq<char>> {
    let name_start = last_index_in(path, '/', path.len() as int) + 1;
    let name = path.subrange(name_start, path.len() as int);
    let d = last_index_in(name, '.', name.len() as int);
    if d <= 0 {
        Option::None
    } else {
        Option::Some(name.subrange(d + 1, name.len() as int))
    }
}

/// The format a file of this path is declared to hold: by extension `md`,
/// `json`, `yaml` or `yml`; anything else has no scanner.
pub open spec fn format_for_path(path: Seq<char>) -> Option<ContentFormat> {
    match extension_of(path) {
        Option::Some(e) => if e == "md"@ {
            Option::Some(ContentFormat::Markdown)
        } else if e == "json"@ {
            Option::Some(ContentFormat::Json)
        } else if e == "yaml"@ || e == "yml"@ {
            Option::Some(ContentFormat::Yaml)
        } else {
            Option::None
        },
        Option::None => Option::None,
    }
}

/// The file extension of `path`, if it has one.
fn extension_str(path: &str) -> (r: Option<String>)
    ensures
        r matches Some(e) ==> extension_of(path@) == Some(e@),
        r is None ==> extension_of(path@) is None,
{
    let n = path.unicode_len();
    let mut k = n;
    while k > 0 && path.get_char(k - 1) != '/'
        invariant
            0 <= k <= n == path@.len(),
            last_index_in(path@, '/', n as int) == last_index_in(path@, '/', k as int),
        decreases k,
    {
        k = k - 1;
    }
    proof {
        if k == 0 {
            assert(last_index_in(path@, '/', 0) == -1);
        } else {
            assert(path@[k - 1] == '/');
            assert(last_index_in(path@, '/', k as int) == k - 1);
        }
    }
    let name_start = k;
    let name = path.substring_char(name_start, n);
    let ghost gname = path@.subrange(name_start as int, n as int);
    assert(name@ == gname);
    let m = name.unicode_len();
    let mut d = m;
    while d > 0 && name.get_char(d - 1) != '.'
        invariant
            0 <= d <= m == gname.len(),
            name@ == gname,
            last_index_in(gname, '.', m as int) == last_index_in(gname, '.', d as int),
        decreases d,
    {
        d = d - 1;
    }
    proof {
        if d == 0 {
            assert(last_index_in(gname, '.', 0) == -1);
        } else {
            assert(gname[d - 1] == '.');
            assert(last_index_in(gname, '.', d as int) == d - 1);
        }
    }
    if d <= 1 {
        // No '.' in the name, or only its first character: no extension.
        return None;
    }
    let ext = name.substring_char(d, m).to_owned();
    proof {
        assert(ext@ =~= gname.subrange(d as int, m as int));
    }
    Some(ext)
}

/// Determines the content format declared by a path's extension.
pub fn content_format_for(path: &str) -> (r: Option<ContentFormat>)
    ensures
        r == format_for_path(path@),
{
    match extension_str(path) {
        Option::Some(e) => {
            if str_eq(e.as_str(), "md") {
                Some(ContentFormat::Markdown)
            } else if str_eq(e.as_str(), "json") {
                Some(ContentFormat::Json)
            } else if str_eq(e.as_str(), "yaml") || str_eq(e.as_str(), "yml") {
                Some(ContentFormat::Yaml)
            } else {
                None
            }
        },
        Option::None => None,
    }
}

/// Whether a file of this path has a scanner at all.
pub fn matches_file_pattern(path: &str) -> (r: bool)
    ensures
        r == (format_for_path(path@) is Some),
{
    match content_format_for(path) {
        Option::Some(_) => true,
        Option::None => false,
    }
}

} // verus!
