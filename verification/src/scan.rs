//! The scan orchestrator: runs the line matcher over the cross product of
//! scanned files and targets, aggregating every occurrence in one fixed,
//! deterministic order — file-list order outermost, then target-list order,
//! then line order within a file.

use vstd::prelude::*;
use crate::matching::{
    file_occurrences, occ_views, scan_file_lines, Occurrence, OccurrenceModel,
};
use crate::text::string_views;

verus! {

/// One file ready to be scanned: its path and its decoded lines. A file whose
/// content did not decode as text takes part with no lines at all, so it can
/// report nothing.
pub struct ScannedFile {
    pub path: String,
    pub lines: Vec<String>,
}

/// The mathematical shadow of a `ScannedFile`.
pub struct FileModel {
    pub path: Seq<char>,
    pub lines: Seq<Seq<char>>,
}

impl View for ScannedFile {
    type V = FileModel;

    open spec fn view(&self) -> FileModel {
        FileModel { path: self.path@, lines: string_views(self.lines@) }
    }
}

/// The views of a sequence of scanned files.
pub open spec fn file_views(s: Seq<ScannedFile>) -> Seq<FileModel> {
    s.map_values(|f: ScannedFile| f@)
}

/// The occurrences of one file against the first `m` targets, in target order.
pub open spec fn file_all_targets(
    f: FileModel,
    targets: Seq<Seq<char>>,
    case_sensitive: bool,
    escape: Seq<char>,
    m: int,
) -> Seq<OccurrenceModel>
    decreases m,
{
    if m <= 0 {
        Seq::empty()
    } else {
        file_all_targets(f, targets, case_sensitive, escape, m - 1) + file_occurrences(
            f.path,
            f.lines,
            targets[m - 1],
            case_sensitive,
            escape,
        )
    }
}

/// The occurrences of the first `n` files against all targets, in file order.
pub open spec fn scan_upto(
    files: Seq<FileModel>,
    targets: Seq<Seq<char>>,
    case_sensitive: bool,
    escape: Seq<char>,
    n: int,
) -> Seq<OccurrenceModel>
    decreases n,
{
    if n <= 0 {
        Seq::empty()
    } else {
        scan_upto(files, targets, case_sensitive, escape, n - 1) + file_all_targets(
            files[n - 1],
            targets,
            case_sensitive,
            escape,
            targets.len() as int,
        )
    }
}

/// Every occurrence of the whole scan, in the canonical order: files in list
/// order, targets in list order within a file, lines in file order within a
/// (file, target) pair.
pub open spec fn scan_occurrences(
    files: Seq<FileModel>,
    targets: Seq<Seq<char>>,
    case_sensitive: bool,
    escape: Seq<char>,
) -> Seq<OccurrenceModel> {
    scan_upto(files, targets, case_sensitive, escape, files.len() as int)
}

/// Law: the aggregated result is a function of the file contents, the target
/// list and the policy alone. Two scans of equal inputs yield the same
/// occurrences in the same order; neither scheduling nor timing has a say, so
/// repeated runs are identical.
pub proof fn lemma_scan_deterministic(
    files_a: Seq<FileModel>,
    files_b: Seq<FileModel>,
    targets_a: Seq<Seq<char>>,
    targets_b: Seq<Seq<char>>,
    case_sensitive: bool,
    escape: Seq<char>,
)
    requires
        files_a == files_b,
        targets_a == targets_b,
    ensures
        scan_occurrences(files_a, targets_a, case_sensitive, escape) == scan_occurrences(
            files_b,
            targets_b,
            case_sensitive,
            escape,
        ),
{
}

/// Runs the whole scan: every file against every target, collecting the
/// occurrences in the canonical deterministic order.
pub fn run_scan(
    files: &Vec<ScannedFile>,
    targets: &Vec<String>,
    case_sensitive: bool,
    escape: &str,
) -> (results: Vec<Occurrence>)
    ensures
        occ_views(results@) == scan_occurrences(
            file_views(files@),
            string_views(targets@),
            case_sensitive,
            escape@,
        ),
{
    let ghost fvs = file_views(files@);
    let ghost tvs = string_views(targets@);
    let mut results: Vec<Occurrence> = Vec::new();
    let mut i: usize = 0;
    assert(occ_views(results@) =~= scan_upto(fvs, tvs, case_sensitive, escape@, 0));
    while i < files.len()
        invariant
            i <= files@.len(),
            fvs == file_views(files@),
            tvs == string_views(targets@),
            occ_views(results@) == scan_upto(fvs, tvs, case_sensitive, escape@, i as int),
        decreases files@.len() - i,
    {
        let file = &files[i];
        assert(fvs[i as int] == files@[i as int]@);
        let ghost file_base = occ_views(results@);
        let mut j: usize = 0;
        while j < targets.len()
            invariant
                j <= targets@.len(),
                i < files@.len(),
                fvs == file_views(files@),
                tvs == string_views(targets@),
                file == files@[i as int],
                file_base == scan_upto(fvs, tvs, case_sensitive, escape@, i as int),
                occ_views(results@) == file_base + file_all_targets(
                    fvs[i as int],
                    tvs,
                    case_sensitive,
                    escape@,
                    j as int,
                ),
            decreases targets@.len() - j,
        {
            assert(tvs[j as int] == targets@[j as int]@);
            scan_file_lines(
                file.path.as_str(),
                &file.lines,
                targets[j].as_str(),
                case_sensitive,
                escape,
                &mut results,
            );
            assert(occ_views(results@) =~= file_base + file_all_targets(
                fvs[i as int],
                tvs,
                case_sensitive,
                escape@,
                j + 1,
            ));
            j += 1;
        }
        assert(occ_views(results@) =~= scan_upto(fvs, tvs, case_sensitive, escape@, i + 1));
        i += 1;
    }
    results
}

} // verus!
