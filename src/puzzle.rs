//! The stored form of a compiled puzzle and the file-set views over it.
use vstd::prelude::*;

verus! {

/// Content of one embedded file: raw bytes, or text (the synthesized readme).
pub enum PuzzleFileEnum {
    File(Vec<u8>),
    String(String),
}

impl PuzzleFileEnum {
    /// The bytes of the content; text is seen through its UTF-8 encoding.
    pub open spec fn bytes(&self) -> Seq<u8> {
        match self {
            PuzzleFileEnum::File(data) => data@,
            PuzzleFileEnum::String(text) => vstd::utf8::encode_utf8(text@),
        }
    }
}

/// One embedded file: its path relative to the puzzle's working copy and its content.
pub struct PuzzleFileData {
    pub(crate) relative_path: String,
    pub(crate) data: PuzzleFileEnum,
}

impl PuzzleFileData {
    pub closed spec fn path(&self) -> Seq<char> {
        self.relative_path@
    }

    pub closed spec fn content(&self) -> PuzzleFileEnum {
        self.data
    }

    pub open spec fn bytes(&self) -> Seq<u8> {
        self.content().bytes()
    }

    pub open spec fn is_text(&self) -> bool {
        self.content() is String
    }

    /// A file whose content is raw bytes.
    pub fn new_file(relative_path: String, data: Vec<u8>) -> (r: PuzzleFileData)
        ensures
            r.path() == relative_path@,
            r.content() == PuzzleFileEnum::File(data),
    {
        PuzzleFileData { relative_path, data: PuzzleFileEnum::File(data) }
    }

    /// A file whose content is text.
    pub fn new_text(relative_path: String, text: String) -> (r: PuzzleFileData)
        ensures
            r.path() == relative_path@,
            r.content() == PuzzleFileEnum::String(text),
    {
        PuzzleFileData { relative_path, data: PuzzleFileEnum::String(text) }
    }

    pub fn get_relative_path(&self) -> (r: &str)
        ensures
            r@ == self.path(),
    {
        self.relative_path.as_str()
    }

    pub fn get_raw_data(&self) -> (r: &[u8])
        ensures
            r@ == self.bytes(),
    {
        match &self.data {
            PuzzleFileEnum::File(data) => data.as_slice(),
            PuzzleFileEnum::String(text) => text.as_str().as_bytes(),
        }
    }

    /// Text access is only offered on text content.
    pub fn get_string_data(&self) -> (r: &str)
        requires
            self.is_text(),
        ensures
            r@ == self.content()->String_0@,
    {
        match &self.data {
            PuzzleFileEnum::String(text) => text.as_str(),
            PuzzleFileEnum::File(_) => {
                proof {
                    assert(false);
                }
                ""
            },
        }
    }

    /// Whether `content` is byte for byte the stored content.
    pub fn check_data(&self, content: &[u8]) -> (r: bool)
        ensures
            r == (self.bytes() == content@),
    {
        let data = self.get_raw_data();
        if data.len() != content.len() {
            return false;
        }
        let mut i: usize = 0;
        while i < data.len()
            invariant
                data@ == self.bytes(),
                data@.len() == content@.len(),
                i <= data@.len(),
                data@.subrange(0, i as int) == content@.subrange(0, i as int),
            decreases data.len() - i,
        {
            if data[i] != content[i] {
                assert(data@[i as int] != content@[i as int]);
                return false;
            }
            assert(data@.subrange(0, i + 1) == data@.subrange(0, i as int).push(data@[i as int]));
            assert(content@.subrange(0, i + 1) == content@.subrange(0, i as int).push(content@[i as int]));
            i = i + 1;
        }
        assert(data@ == data@.subrange(0, data@.len() as int));
        assert(content@ == content@.subrange(0, content@.len() as int));
        true
    }
}

/// Difficulty tier of a puzzle; `Unspecified` when the manifest gives none.
#[derive(Clone, Copy, Debug, PartialEq, Eq, Structural)]
pub enum PuzzleDifficulty {
    Basic,
    Intermediate,
    Advanced,
    Unspecified,
}

/// The paths of a sequence of files, in order.
pub open spec fn paths_of(files: Seq<PuzzleFileData>) -> Seq<Seq<char>> {
    files.map_values(|f: PuzzleFileData| f.path())
}

/// The views of a sequence of strings, in order.
pub open spec fn strings_of(v: Seq<String>) -> Seq<Seq<char>> {
    v.map_values(|s: String| s@)
}

/// The files behind a sequence of references, in order.
pub open spec fn files_of(refs: Seq<&PuzzleFileData>) -> Seq<PuzzleFileData> {
    refs.map_values(|f: &PuzzleFileData| *f)
}

/// The read-only paths: the starter paths, in order, that the solution does not list.
pub open spec fn read_only_paths_of(starter: Seq<Seq<char>>, solution: Seq<Seq<char>>) -> Seq<
    Seq<char>,
> {
    starter.filter(|p: Seq<char>| !solution.contains(p))
}

/// Path under which the synthesized readme is stored.
pub open spec fn readme_path() -> Seq<char> {
    seq!['R', 'E', 'A', 'D', 'M', 'E', '.', 'm', 'd']
}

/// What a compiled puzzle holds, as mathematical values.
pub ghost struct PuzzleView {
    pub title: Seq<char>,
    pub id: u16,
    pub starter: Seq<PuzzleFileData>,
    pub solution: Seq<PuzzleFileData>,
    pub readme: PuzzleFileData,
    pub readme_files: Seq<PuzzleFileData>,
    pub read_only_paths: Seq<Seq<char>>,
    pub difficulty: PuzzleDifficulty,
    pub categories: Seq<Seq<char>>,
    pub libraries: Seq<Seq<char>>,
}

/// A compiled puzzle: metadata plus its starter, solution and documentation files.
pub struct PuzzleData {
    pub(crate) title: String,
    pub(crate) id: u16,
    pub(crate) starter: Vec<PuzzleFileData>,
    pub(crate) solution: Vec<PuzzleFileData>,
    pub(crate) readme: PuzzleFileData,
    pub(crate) readme_files: Vec<PuzzleFileData>,
    pub(crate) read_only_file_paths: Vec<String>,
    pub(crate) difficulty: PuzzleDifficulty,
    pub(crate) categories: Vec<String>,
    pub(crate) libraries: Vec<String>,
}

impl View for PuzzleData {
    type V = PuzzleView;

    closed spec fn view(&self) -> PuzzleView {
        PuzzleView {
            title: self.title@,
            id: self.id,
            starter: self.starter@,
            solution: self.solution@,
            readme: self.readme,
            readme_files: self.readme_files@,
            read_only_paths: strings_of(self.read_only_file_paths@),
            difficulty: self.difficulty,
            categories: strings_of(self.categories@),
            libraries: strings_of(self.libraries@),
        }
    }
}

impl PuzzleView {
    /// A compiled puzzle is valid when its readme is text stored as `README.md` and its
    /// read-only paths are exactly the starter paths that the solution does not list.
    pub open spec fn wf(&self) -> bool {
        &&& self.readme.is_text()
        &&& self.readme.path() == readme_path()
        &&& self.read_only_paths == read_only_paths_of(
            paths_of(self.starter),
            paths_of(self.solution),
        )
    }

    /// Starter files, then the readme, then the extra documentation files.
    pub open spec fn base_files(&self) -> Seq<PuzzleFileData> {
        self.starter + seq![self.readme] + self.readme_files
    }

    /// The starter files, in order, whose path is read-only.
    pub open spec fn read_only_files(&self) -> Seq<PuzzleFileData> {
        self.starter.filter(|f: PuzzleFileData| self.read_only_paths.contains(f.path()))
    }

    /// The readme, the documentation files, the read-only starter files, then the solution.
    pub open spec fn final_files(&self) -> Seq<PuzzleFileData> {
        seq![self.readme] + self.readme_files + self.read_only_files() + self.solution
    }
}

/// Whether `paths` lists `path`.
pub fn contains_path(paths: &Vec<String>, path: &String) -> (r: bool)
    ensures
        r == strings_of(paths@).contains(path@),
{
    let mut i: usize = 0;
    while i < paths.len()
        invariant
            i <= paths@.len(),
            forall|k: int| 0 <= k < i ==> paths@[k]@ != path@,
        decreases paths.len() - i,
    {
        if paths[i] == *path {
            assert(strings_of(paths@)[i as int] == path@);
            return true;
        }
        i = i + 1;
    }
    assert(!strings_of(paths@).contains(path@)) by {
        if strings_of(paths@).contains(path@) {
            let k = choose|k: int| 0 <= k < strings_of(paths@).len() && strings_of(paths@)[k] == path@;
            assert(paths@[k]@ == path@);
        }
    }
    false
}

impl PuzzleData {
    /// Assembles a compiled puzzle from its parts.
    pub(crate) fn new(
        title: String,
        id: u16,
        starter: Vec<PuzzleFileData>,
        solution: Vec<PuzzleFileData>,
        readme: PuzzleFileData,
        readme_files: Vec<PuzzleFileData>,
        read_only_file_paths: Vec<String>,
        difficulty: PuzzleDifficulty,
        categories: Vec<String>,
        libraries: Vec<String>,
    ) -> (r: PuzzleData)
        ensures
            r@.title == title@,
            r@.id == id,
            r@.starter == starter@,
            r@.solution == solution@,
            r@.readme == readme,
            r@.readme_files == readme_files@,
            r@.read_only_paths == strings_of(read_only_file_paths@),
            r@.difficulty == difficulty,
            r@.categories == strings_of(categories@),
            r@.libraries == strings_of(libraries@),
    {
        PuzzleData {
            title,
            id,
            starter,
            solution,
            readme,
            readme_files,
            read_only_file_paths,
            difficulty,
            categories,
            libraries,
        }
    }

    pub fn get_title(&self) -> (r: &str)
        ensures
            r@ == self@.title,
    {
        self.title.as_str()
    }

    pub fn get_id(&self) -> (r: &u16)
        ensures
            *r == self@.id,
    {
        &self.id
    }

    pub fn get_difficulty(&self) -> (r: PuzzleDifficulty)
        ensures
            r == self@.difficulty,
    {
        self.difficulty
    }

    pub fn get_categories(&self) -> (r: &Vec<String>)
        ensures
            strings_of(r@) == self@.categories,
    {
        &self.categories
    }

    pub fn get_libraries(&self) -> (r: &Vec<String>)
        ensures
            strings_of(r@) == self@.libraries,
    {
        &self.libraries
    }

    /// The synthesized readme text.
    pub fn get_readme_str(&self) -> (r: &str)
        requires
            self@.wf(),
        ensures
            r@ == self@.readme.content()->String_0@,
    {
        self.readme.get_string_data()
    }

    pub fn get_readme_files(&self) -> (r: &[PuzzleFileData])
        ensures
            r@ == self@.readme_files,
    {
        self.readme_files.as_slice()
    }

    pub fn get_read_only_file_paths(&self) -> (r: &[String])
        ensures
            strings_of(r@) == self@.read_only_paths,
    {
        self.read_only_file_paths.as_slice()
    }

    /// Starter files, then the readme, then the extra documentation files.
    pub fn get_base_files(&self) -> (r: Vec<&PuzzleFileData>)
        ensures
            files_of(r@) == self@.base_files(),
    {
        let mut files: Vec<&PuzzleFileData> = Vec::new();
        push_all(&mut files, &self.starter);
        proof {
            lemma_files_of_push(files@, &self.readme);
        }
        files.push(&self.readme);
        assert(files_of(files@) =~= self.starter@ + seq![self.readme]);
        push_all(&mut files, &self.readme_files);
        assert(files_of(files@) =~= self@.base_files());
        files
    }

    /// The starter files whose path is read-only, in starter order.
    pub fn get_read_only_files(&self) -> (r: Vec<&PuzzleFileData>)
        ensures
            files_of(r@) == self@.read_only_files(),
    {
        let ghost pred = |f: PuzzleFileData| self@.read_only_paths.contains(f.path());
        let mut files: Vec<&PuzzleFileData> = Vec::new();
        let mut i: usize = 0;
        while i < self.starter.len()
            invariant
                i <= self.starter@.len(),
                pred == (|f: PuzzleFileData| self@.read_only_paths.contains(f.path())),
                files_of(files@) == self.starter@.subrange(0, i as int).filter(pred),
            decreases self.starter.len() - i,
        {
            let starter_file = &self.starter[i];
            let keep = contains_path(&self.read_only_file_paths, &starter_file.relative_path);
            proof {
                reveal(Seq::filter);
                let prefix = self.starter@.subrange(0, i + 1);
                assert(prefix.drop_last() =~= self.starter@.subrange(0, i as int));
                assert(prefix.last() == *starter_file);
                assert(keep == pred(*starter_file));
            }
            if keep {
                proof {
                    lemma_files_of_push(files@, starter_file);
                }
                files.push(starter_file);
            }
            assert(files_of(files@) =~= self.starter@.subrange(0, i + 1).filter(pred)) by {
                reveal(Seq::filter);
            }
            i = i + 1;
        }
        assert(self.starter@.subrange(0, self.starter@.len() as int) =~= self.starter@);
        files
    }

    /// The readme, the documentation files, the read-only starter files, then the solution.
    pub fn get_final_files(&self) -> (r: Vec<&PuzzleFileData>)
        ensures
            files_of(r@) == self@.final_files(),
    {
        let mut files: Vec<&PuzzleFileData> = Vec::new();
        files.push(&self.readme);
        assert(files_of(files@) =~= seq![self.readme]);
        push_all(&mut files, &self.readme_files);
        let read_only = self.get_read_only_files();
        let mut i: usize = 0;
        while i < read_only.len()
            invariant
                i <= read_only@.len(),
                files_of(files@) == seq![self.readme] + self.readme_files@ + files_of(
                    read_only@,
                ).subrange(0, i as int),
            decreases read_only.len() - i,
        {
            proof {
                lemma_files_of_push(files@, read_only@[i as int]);
            }
            files.push(read_only[i]);
            assert(files_of(read_only@).subrange(0, i + 1) =~= files_of(
                read_only@,
            ).subrange(0, i as int).push(*read_only@[i as int]));
            assert(files_of(files@) =~= seq![self.readme] + self.readme_files@ + files_of(
                read_only@,
            ).subrange(0, i + 1));
            i = i + 1;
        }
        assert(files_of(read_only@).subrange(0, read_only@.len() as int) =~= files_of(read_only@));
        push_all(&mut files, &self.solution);
        assert(files_of(files@) =~= self@.final_files());
        files
    }
}

proof fn lemma_files_of_push(refs: Seq<&PuzzleFileData>, f: &PuzzleFileData)
    ensures
        files_of(refs.push(f)) == files_of(refs).push(*f),
{
    assert(files_of(refs.push(f)) =~= files_of(refs).push(*f));
}

/// Every read-only file is one of the starter files that the base files begin with, and
/// no read-only file shares its path with a solution file.
pub proof fn lemma_read_only_files_from_starter(p: PuzzleView)
    requires
        p.wf(),
    ensures
        p.base_files().subrange(0, p.starter.len() as int) == p.starter,
        forall|i: int|
            0 <= i < p.read_only_files().len() ==> p.starter.contains(
                #[trigger] p.read_only_files()[i],
            ),
        forall|i: int, j: int|
            0 <= i < p.read_only_files().len() && 0 <= j < p.solution.len() ==> (
            #[trigger] p.read_only_files()[i]).path() != (#[trigger] p.solution[j]).path(),
{
    assert(p.base_files().subrange(0, p.starter.len() as int) =~= p.starter);
    let pred = |f: PuzzleFileData| p.read_only_paths.contains(f.path());
    let keep = |q: Seq<char>| !paths_of(p.solution).contains(q);
    assert forall|i: int| 0 <= i < p.read_only_files().len() implies p.starter.contains(
        #[trigger] p.read_only_files()[i],
    ) by {
        p.starter.lemma_filter_contains_rev(pred, p.read_only_files()[i]);
    }
    assert forall|i: int, j: int|
        0 <= i < p.read_only_files().len() && 0 <= j < p.solution.len() implies (
        #[trigger] p.read_only_files()[i]).path() != (#[trigger] p.solution[j]).path() by {
        let path = p.read_only_files()[i].path();
        assert(pred(p.read_only_files()[i]));
        let k = choose|k: int| 0 <= k < p.read_only_paths.len() && p.read_only_paths[k] == path;
        assert(keep(p.read_only_paths[k]));
        assert(paths_of(p.solution)[j] == p.solution[j].path());
    }
}

/// In the final files, the read-only files and the solution files that follow them never
/// share a path, so no path is written twice from those two parts.
pub proof fn lemma_final_files_read_only_solution_disjoint(p: PuzzleView)
    requires
        p.wf(),
    ensures
        ({
            let start = 1 + p.readme_files.len();
            let ro_len = p.read_only_files().len();
            &&& p.final_files().len() == start + ro_len + p.solution.len()
            &&& forall|i: int, j: int|
                start <= i < start + ro_len && start + ro_len <= j < p.final_files().len() ==> (
                #[trigger] p.final_files()[i]).path() != (#[trigger] p.final_files()[j]).path()
        }),
{
    lemma_read_only_files_from_starter(p);
    let start = 1 + p.readme_files.len();
    let ro_len = p.read_only_files().len();
    assert forall|i: int, j: int|
        start <= i < start + ro_len && start + ro_len <= j < p.final_files().len() implies (
        #[trigger] p.final_files()[i]).path() != (#[trigger] p.final_files()[j]).path() by {
        assert(p.final_files()[i] == p.read_only_files()[i - start]);
        assert(p.final_files()[j] == p.solution[j - start - ro_len]);
    }
}

/// Appends a reference to each file of `source`, in order.
fn push_all<'a>(files: &mut Vec<&'a PuzzleFileData>, source: &'a Vec<PuzzleFileData>)
    ensures
        files_of(final(files)@) == files_of(old(files)@) + source@,
{
    let ghost start = files_of(files@);
    let mut i: usize = 0;
    while i < source.len()
        invariant
            i <= source@.len(),
            files_of(files@) == start + source@.subrange(0, i as int),
        decreases source.len() - i,
    {
        proof {
            lemma_files_of_push(files@, &source@[i as int]);
        }
        files.push(&source[i]);
        assert(files_of(files@) =~= start + source@.subrange(0, i + 1));
        i = i + 1;
    }
    assert(source@.subrange(0, source@.len() as int) =~= source@);
}

} // verus!
