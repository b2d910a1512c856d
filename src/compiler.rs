//! Compilation of one puzzle: file-set resolution, the read-only derivation and assembly.
use crate::manifest::{ManifestError, PuzzleManifest};
use crate::puzzle::{
    contains_path, paths_of, read_only_paths_of, readme_path, strings_of, PuzzleData,
    PuzzleFileData,
};
use crate::readme::{readme_text, synthesize_readme};
use vstd::prelude::*;
use vstd::string::StringExecFns;

verus! {

/// Why compilation stopped.
pub enum CompileError {
    /// A manifest could not be read; where it lies and why.
    Manifest(String, ManifestError),
    /// A file that a manifest lists is absent or unreadable; its path as listed.
    MissingFile(String),
    /// Two manifests declare the same id; the id and both manifests' locations.
    DuplicateId(u16, String, String),
    /// The corpus could not be walked; the reason.
    Io(String),
}

/// Whether every file was read.
pub open spec fn all_present(contents: Seq<Option<Vec<u8>>>) -> bool {
    forall|i: int| 0 <= i < contents.len() ==> (#[trigger] contents[i]) is Some
}

/// Whether `name` is the path of the first file that could not be read.
pub open spec fn first_missing_is(
    paths: Seq<Seq<char>>,
    contents: Seq<Option<Vec<u8>>>,
    name: Seq<char>,
) -> bool {
    exists|i: int|
        0 <= i < contents.len() && (#[trigger] contents[i]) is None && paths[i] == name && forall|
            k: int,
        | 0 <= k < i ==> (#[trigger] contents[k]) is Some
}

/// Whether `files` are the listed paths, in order, each with the bytes that were read.
pub open spec fn files_match(
    files: Seq<PuzzleFileData>,
    paths: Seq<Seq<char>>,
    contents: Seq<Option<Vec<u8>>>,
) -> bool {
    &&& files.len() == paths.len()
    &&& forall|i: int|
        0 <= i < files.len() ==> {
            &&& (#[trigger] files[i]).path() == paths[i]
            &&& files[i].content() is File
            &&& files[i].bytes() == contents[i]->Some_0@
        }
}

/// The error names a missing file.
pub open spec fn missing_file_is(e: CompileError, name: Seq<char>) -> bool {
    e matches CompileError::MissingFile(p) && p@ == name
}

/// The starter paths that the solution does not list, in starter order.
pub fn read_only_paths(starter: &Vec<String>, solution: &Vec<String>) -> (r: Vec<String>)
    ensures
        strings_of(r@) == read_only_paths_of(strings_of(starter@), strings_of(solution@)),
{
    let ghost keep = |p: Seq<char>| !strings_of(solution@).contains(p);
    let mut out: Vec<String> = Vec::new();
    let mut i: usize = 0;
    while i < starter.len()
        invariant
            i <= starter@.len(),
            keep == (|p: Seq<char>| !strings_of(solution@).contains(p)),
            strings_of(out@) == strings_of(starter@).subrange(0, i as int).filter(keep),
        decreases starter.len() - i,
    {
        let listed = contains_path(solution, &starter[i]);
        proof {
            reveal(Seq::filter);
            let prefix = strings_of(starter@).subrange(0, i + 1);
            assert(prefix.drop_last() =~= strings_of(starter@).subrange(0, i as int));
            assert(prefix.last() == starter@[i as int]@);
        }
        if !listed {
            out.push(starter[i].clone());
        }
        assert(strings_of(out@) =~= strings_of(starter@).subrange(0, i + 1).filter(keep)) by {
            reveal(Seq::filter);
        }
        i = i + 1;
    }
    assert(strings_of(starter@).subrange(0, starter@.len() as int) =~= strings_of(starter@));
    out
}

/// Pairs each listed path with the bytes read for it, or names the first path that
/// could not be read.
pub fn resolve_files(paths: &Vec<String>, contents: Vec<Option<Vec<u8>>>) -> (r: Result<
    Vec<PuzzleFileData>,
    CompileError,
>)
    requires
        paths@.len() == contents@.len(),
    ensures
        match r {
            Ok(files) => all_present(contents@) && files_match(files@, strings_of(paths@), contents@),
            Err(e) => !all_present(contents@) && exists|name: Seq<char>|
                first_missing_is(strings_of(paths@), contents@, name) && missing_file_is(e, name),
        },
{
    let ghost all = contents@;
    let n = paths.len();
    let mut files: Vec<PuzzleFileData> = Vec::new();
    let mut i: usize = 0;
    for item in it: contents
        invariant
            it.seq() == all,
            i == it.index(),
            i <= all.len(),
            n == all.len(),
            paths@.len() == all.len(),
            files@.len() == i,
            forall|k: int| 0 <= k < i ==> (#[trigger] all[k]) is Some,
            forall|k: int|
                0 <= k < i ==> {
                    &&& (#[trigger] files@[k]).path() == paths@[k]@
                    &&& files@[k].content() is File
                    &&& files@[k].bytes() == all[k]->Some_0@
                },
    {
        match item {
            Some(data) => {
                files.push(PuzzleFileData::new_file(paths[i].clone(), data));
            },
            None => {
                let name = paths[i].clone();
                let ghost listed = name@;
                assert(all[i as int] is None);
                assert(strings_of(paths@)[i as int] == listed);
                assert(first_missing_is(strings_of(paths@), all, listed));
                let e = CompileError::MissingFile(name);
                assert(missing_file_is(e, listed));
                return Err(e);
            },
        }
        i = i + 1;
    }
    assert(files_match(files@, strings_of(paths@), all));
    Ok(files)
}

/// The error that compiling a puzzle gives when a file is missing: the first missing
/// starter file, else solution file, else the readme, else documentation file.
pub open spec fn compile_missing_is(
    m: PuzzleManifest,
    starter: Seq<Option<Vec<u8>>>,
    solution: Seq<Option<Vec<u8>>>,
    readme: Option<String>,
    readme_files: Seq<Option<Vec<u8>>>,
    name: Seq<char>,
) -> bool {
    if !all_present(starter) {
        first_missing_is(strings_of(m.starter@), starter, name)
    } else if !all_present(solution) {
        first_missing_is(strings_of(m.solution@), solution, name)
    } else if readme is None {
        name == readme_path()
    } else {
        !all_present(readme_files) && first_missing_is(
            strings_of(m.readme_files@),
            readme_files,
            name,
        )
    }
}

/// When the solution file at `i` is the only file of the starter and solution sets that
/// could not be read, compiling fails naming exactly that file's listed path.
pub proof fn lemma_sole_missing_solution_file_is_named(
    m: PuzzleManifest,
    starter: Seq<Option<Vec<u8>>>,
    solution: Seq<Option<Vec<u8>>>,
    readme: Option<String>,
    readme_files: Seq<Option<Vec<u8>>>,
    i: int,
    name: Seq<char>,
)
    requires
        solution.len() == m.solution@.len(),
        all_present(starter),
        0 <= i < solution.len(),
        solution[i] is None,
        forall|k: int| 0 <= k < solution.len() && k != i ==> (#[trigger] solution[k]) is Some,
    ensures
        compile_missing_is(m, starter, solution, readme, readme_files, name) <==> name
            == strings_of(m.solution@)[i],
{
    if compile_missing_is(m, starter, solution, readme, readme_files, name) {
        let j = choose|j: int|
            0 <= j < solution.len() && (#[trigger] solution[j]) is None && strings_of(
                m.solution@,
            )[j] == name && forall|k: int| 0 <= k < j ==> (#[trigger] solution[k]) is Some;
        assert(j == i);
    }
    if name == strings_of(m.solution@)[i] {
        assert(!all_present(solution));
        assert(first_missing_is(strings_of(m.solution@), solution, name));
    }
}

/// Whenever compiling fails, the file it names is one that was listed and not read: a
/// starter, solution or documentation file, or the readme.
pub proof fn lemma_named_file_was_not_read(
    m: PuzzleManifest,
    starter: Seq<Option<Vec<u8>>>,
    solution: Seq<Option<Vec<u8>>>,
    readme: Option<String>,
    readme_files: Seq<Option<Vec<u8>>>,
    name: Seq<char>,
)
    requires
        compile_missing_is(m, starter, solution, readme, readme_files, name),
    ensures
        (exists|k: int| 0 <= k < starter.len() && (#[trigger] starter[k]) is None
            && strings_of(m.starter@)[k] == name) || (exists|k: int|
            0 <= k < solution.len() && (#[trigger] solution[k]) is None && strings_of(
                m.solution@,
            )[k] == name) || (readme is None && name == readme_path()) || (exists|k: int|
            0 <= k < readme_files.len() && (#[trigger] readme_files[k]) is None && strings_of(
                m.readme_files@,
            )[k] == name),
{
}

/// Compiles one puzzle from its manifest and what was read for it: the starter, solution
/// and documentation files, each in the order the manifest lists them, and the raw readme.
/// Fails with the first missing file; otherwise the puzzle holds the files as read, the
/// synthesized readme, and the starter paths that the solution does not list as read-only.
pub fn compile_puzzle(
    manifest: PuzzleManifest,
    starter: Vec<Option<Vec<u8>>>,
    solution: Vec<Option<Vec<u8>>>,
    readme: Option<String>,
    readme_files: Vec<Option<Vec<u8>>>,
) -> (r: Result<PuzzleData, CompileError>)
    requires
        starter@.len() == manifest.starter@.len(),
        solution@.len() == manifest.solution@.len(),
        readme_files@.len() == manifest.readme_files@.len(),
    ensures
        match r {
            Ok(p) => {
                &&& all_present(starter@)
                &&& all_present(solution@)
                &&& readme is Some
                &&& all_present(readme_files@)
                &&& p@.wf()
                &&& p@.title == manifest.title@
                &&& p@.id == manifest.id
                &&& files_match(p@.starter, strings_of(manifest.starter@), starter@)
                &&& files_match(p@.solution, strings_of(manifest.solution@), solution@)
                &&& files_match(p@.readme_files, strings_of(manifest.readme_files@), readme_files@)
                &&& p@.readme.content()->String_0@ == readme_text(
                    manifest.title@,
                    manifest.id,
                    readme->Some_0@,
                )
                &&& p@.read_only_paths == read_only_paths_of(
                    strings_of(manifest.starter@),
                    strings_of(manifest.solution@),
                )
                &&& p@.difficulty == manifest.difficulty
                &&& p@.categories == strings_of(manifest.categories@)
                &&& p@.libraries == strings_of(manifest.libraries@)
            },
            Err(e) => exists|name: Seq<char>|
                compile_missing_is(manifest, starter@, solution@, readme, readme_files@, name)
                    && missing_file_is(e, name),
        },
{
    let ghost m = manifest;
    let ghost starter_in = starter@;
    let ghost solution_in = solution@;
    let ghost readme_files_in = readme_files@;
    let starter_files = match resolve_files(&manifest.starter, starter) {
        Ok(files) => files,
        Err(e) => return Err(e),
    };
    let solution_files = match resolve_files(&manifest.solution, solution) {
        Ok(files) => files,
        Err(e) => return Err(e),
    };
    let raw = match readme {
        Some(raw) => raw,
        None => {
            let e = CompileError::MissingFile(String::from_str("README.md"));
            proof {
                reveal_strlit("README.md");
                assert("README.md"@ =~= readme_path());
                assert(missing_file_is(e, readme_path()));
                assert(compile_missing_is(m, starter_in, solution_in, readme, readme_files_in, readme_path()));
            }
            return Err(e);
        },
    };
    let other_files = match resolve_files(&manifest.readme_files, readme_files) {
        Ok(files) => files,
        Err(e) => return Err(e),
    };
    let text = synthesize_readme(raw.as_str(), manifest.title.as_str(), manifest.id);
    proof {
        reveal_strlit("README.md");
    }
    let readme_file = PuzzleFileData::new_text(String::from_str("README.md"), text);
    let read_only = read_only_paths(&manifest.starter, &manifest.solution);
    let p = PuzzleData::new(
        manifest.title,
        manifest.id,
        starter_files,
        solution_files,
        readme_file,
        other_files,
        read_only,
        manifest.difficulty,
        manifest.categories,
        manifest.libraries,
    );
    assert(paths_of(p@.starter) =~= strings_of(m.starter@));
    assert(paths_of(p@.solution) =~= strings_of(m.solution@));
    assert(readme_path() =~= "README.md"@);
    Ok(p)
}

} // verus!
