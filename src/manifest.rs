//! Puzzle manifests: the per-puzzle definition document and its structural validation.
use crate::puzzle::{strings_of, PuzzleDifficulty};
use crate::readme::chars_of;
use vstd::prelude::*;
use vstd::string::StringExecFns;

verus! {

/// One puzzle's definition, as read from its manifest.
pub struct PuzzleManifest {
    pub title: String,
    pub id: u16,
    pub starter: Vec<String>,
    pub solution: Vec<String>,
    pub readme_files: Vec<String>,
    pub difficulty: PuzzleDifficulty,
    pub categories: Vec<String>,
    pub libraries: Vec<String>,
}

/// Why a manifest could not be read.
pub enum ManifestError {
    /// The document is not a JSON object; the parser's message.
    Syntax(String),
    /// A required field is absent; the field's name.
    Missing(String),
    /// A field holds a value of the wrong type or out of range; the field's name.
    Malformed(String),
}

/// A field of the manifest document, as found.
pub enum JsonField<T> {
    Absent,
    Mistyped,
    Present(T),
}

/// The fields of a manifest document, each as found.
pub struct ManifestFields {
    pub title: JsonField<String>,
    pub id: JsonField<u64>,
    pub starter: JsonField<Vec<String>>,
    pub solution: JsonField<Vec<String>>,
    pub readme_files: JsonField<Vec<String>>,
    pub difficulty: JsonField<String>,
    pub categories: JsonField<Vec<String>>,
    pub libraries: JsonField<Vec<String>>,
}

/// The fields of a manifest document, with each value seen through its view.
pub ghost struct FieldsView {
    pub title: JsonField<Seq<char>>,
    pub id: JsonField<u64>,
    pub starter: JsonField<Seq<Seq<char>>>,
    pub solution: JsonField<Seq<Seq<char>>>,
    pub readme_files: JsonField<Seq<Seq<char>>>,
    pub difficulty: JsonField<Seq<char>>,
    pub categories: JsonField<Seq<Seq<char>>>,
    pub libraries: JsonField<Seq<Seq<char>>>,
}

/// A text field seen through its view.
pub open spec fn text_field(f: JsonField<String>) -> JsonField<Seq<char>> {
    match f {
        JsonField::Absent => JsonField::Absent,
        JsonField::Mistyped => JsonField::Mistyped,
        JsonField::Present(s) => JsonField::Present(s@),
    }
}

/// A list field seen through the views of its strings.
pub open spec fn list_field(f: JsonField<Vec<String>>) -> JsonField<Seq<Seq<char>>> {
    match f {
        JsonField::Absent => JsonField::Absent,
        JsonField::Mistyped => JsonField::Mistyped,
        JsonField::Present(v) => JsonField::Present(strings_of(v@)),
    }
}

impl View for ManifestFields {
    type V = FieldsView;

    open spec fn view(&self) -> FieldsView {
        FieldsView {
            title: text_field(self.title),
            id: self.id,
            starter: list_field(self.starter),
            solution: list_field(self.solution),
            readme_files: list_field(self.readme_files),
            difficulty: text_field(self.difficulty),
            categories: list_field(self.categories),
            libraries: list_field(self.libraries),
        }
    }
}

/// `c` with ASCII upper case letters lowered.
pub open spec fn ascii_lower(c: char) -> char {
    if 'A' <= c && c <= 'Z' {
        ((c as u32) + 32) as char
    } else {
        c
    }
}

pub open spec fn ascii_lower_seq(s: Seq<char>) -> Seq<char> {
    s.map_values(|c: char| ascii_lower(c))
}

/// Whether `a` and `b` are equal when ASCII case is ignored.
pub open spec fn same_ignoring_case(a: Seq<char>, b: Seq<char>) -> bool {
    ascii_lower_seq(a) == ascii_lower_seq(b)
}

/// The difficulty a token names, case-insensitively; `none` names no difficulty.
pub open spec fn difficulty_of(token: Seq<char>) -> Option<PuzzleDifficulty> {
    if same_ignoring_case(token, "basic"@) {
        Some(PuzzleDifficulty::Basic)
    } else if same_ignoring_case(token, "intermediate"@) {
        Some(PuzzleDifficulty::Intermediate)
    } else if same_ignoring_case(token, "advanced"@) {
        Some(PuzzleDifficulty::Advanced)
    } else if same_ignoring_case(token, "none"@) {
        Some(PuzzleDifficulty::Unspecified)
    } else {
        None
    }
}

fn lower_char(c: char) -> (r: char)
    ensures
        r == ascii_lower(c),
{
    if 'A' <= c && c <= 'Z' {
        ((c as u8) + 32) as char
    } else {
        c
    }
}

/// Whether `a` and `b` are equal when ASCII case is ignored.
pub fn eq_ignore_ascii_case(a: &str, b: &str) -> (r: bool)
    ensures
        r == same_ignoring_case(a@, b@),
{
    let x = chars_of(a);
    let y = chars_of(b);
    if x.len() != y.len() {
        assert(ascii_lower_seq(a@).len() != ascii_lower_seq(b@).len());
        return false;
    }
    let mut i: usize = 0;
    while i < x.len()
        invariant
            x@ == a@,
            y@ == b@,
            x@.len() == y@.len(),
            i <= x@.len(),
            forall|k: int| 0 <= k < i ==> ascii_lower(x@[k]) == ascii_lower(y@[k]),
        decreases x.len() - i,
    {
        if lower_char(x[i]) != lower_char(y[i]) {
            assert(ascii_lower_seq(a@)[i as int] != ascii_lower_seq(b@)[i as int]);
            return false;
        }
        i = i + 1;
    }
    assert(ascii_lower_seq(a@) =~= ascii_lower_seq(b@));
    true
}

/// Reads a difficulty token.
pub fn parse_difficulty(token: &str) -> (r: Option<PuzzleDifficulty>)
    ensures
        r == difficulty_of(token@),
{
    if eq_ignore_ascii_case(token, "basic") {
        Some(PuzzleDifficulty::Basic)
    } else if eq_ignore_ascii_case(token, "intermediate") {
        Some(PuzzleDifficulty::Intermediate)
    } else if eq_ignore_ascii_case(token, "advanced") {
        Some(PuzzleDifficulty::Advanced)
    } else if eq_ignore_ascii_case(token, "none") {
        Some(PuzzleDifficulty::Unspecified)
    } else {
        None
    }
}

/// How a field of the document fails.
#[derive(Clone, Copy, Debug, PartialEq, Eq, Structural)]
pub enum FieldFault {
    Missing,
    Malformed,
}

/// The fault of a required field, judged by presence and type alone.
pub open spec fn presence_fault<T>(f: JsonField<T>) -> Option<FieldFault> {
    match f {
        JsonField::Absent => Some(FieldFault::Missing),
        JsonField::Mistyped => Some(FieldFault::Malformed),
        JsonField::Present(_) => None,
    }
}

/// The id must be present, a number, and fit in 16 bits.
pub open spec fn id_fault(f: JsonField<u64>) -> Option<FieldFault> {
    match f {
        JsonField::Present(n) => if n > u16::MAX {
            Some(FieldFault::Malformed)
        } else {
            None
        },
        _ => presence_fault(f),
    }
}

/// The difficulty may be absent; when present it must be a known token.
pub open spec fn difficulty_fault(f: JsonField<Seq<char>>) -> Option<FieldFault> {
    match f {
        JsonField::Absent => None,
        JsonField::Mistyped => Some(FieldFault::Malformed),
        JsonField::Present(t) => if difficulty_of(t) is None {
            Some(FieldFault::Malformed)
        } else {
            None
        },
    }
}

/// The first faulty field of a document, in the order title, id, starter, solution,
/// readme_files, difficulty, categories, libraries, with its name.
pub open spec fn manifest_fault(f: FieldsView) -> Option<(FieldFault, Seq<char>)> {
    if presence_fault(f.title) is Some {
        Some((presence_fault(f.title)->Some_0, "title"@))
    } else if id_fault(f.id) is Some {
        Some((id_fault(f.id)->Some_0, "id"@))
    } else if presence_fault(f.starter) is Some {
        Some((presence_fault(f.starter)->Some_0, "starter"@))
    } else if presence_fault(f.solution) is Some {
        Some((presence_fault(f.solution)->Some_0, "solution"@))
    } else if presence_fault(f.readme_files) is Some {
        Some((presence_fault(f.readme_files)->Some_0, "readme_files"@))
    } else if difficulty_fault(f.difficulty) is Some {
        Some((difficulty_fault(f.difficulty)->Some_0, "difficulty"@))
    } else if presence_fault(f.categories) is Some {
        Some((presence_fault(f.categories)->Some_0, "categories"@))
    } else if presence_fault(f.libraries) is Some {
        Some((presence_fault(f.libraries)->Some_0, "libraries"@))
    } else {
        None
    }
}

/// Whether `m` holds exactly what the fields give.
pub open spec fn manifest_holds(m: PuzzleManifest, f: FieldsView) -> bool {
    &&& f.title == JsonField::Present(m.title@)
    &&& f.id == JsonField::Present(m.id as u64)
    &&& f.starter == JsonField::Present(strings_of(m.starter@))
    &&& f.solution == JsonField::Present(strings_of(m.solution@))
    &&& f.readme_files == JsonField::Present(strings_of(m.readme_files@))
    &&& m.difficulty == difficulty_given(f.difficulty)
    &&& f.categories == JsonField::Present(strings_of(m.categories@))
    &&& f.libraries == JsonField::Present(strings_of(m.libraries@))
}

/// The field fault an error reports, if it reports one.
pub open spec fn fault_of(e: ManifestError) -> Option<(FieldFault, Seq<char>)> {
    match e {
        ManifestError::Syntax(_) => None,
        ManifestError::Missing(name) => Some((FieldFault::Missing, name@)),
        ManifestError::Malformed(name) => Some((FieldFault::Malformed, name@)),
    }
}

/// The difficulty a valid document gives: the token's, or `Unspecified` when absent.
pub open spec fn difficulty_given(f: JsonField<Seq<char>>) -> PuzzleDifficulty {
    match f {
        JsonField::Present(t) => difficulty_of(t)->Some_0,
        _ => PuzzleDifficulty::Unspecified,
    }
}

fn fault_error(fault: FieldFault, name: &str) -> (e: ManifestError)
    ensures
        fault_of(e) == Some((fault, name@)),
{
    match fault {
        FieldFault::Missing => ManifestError::Missing(String::from_str(name)),
        FieldFault::Malformed => ManifestError::Malformed(String::from_str(name)),
    }
}

fn take_required<T>(f: JsonField<T>, name: &str) -> (r: Result<T, ManifestError>)
    ensures
        match r {
            Ok(v) => presence_fault(f) is None && f == JsonField::Present(v),
            Err(e) => presence_fault(f) is Some && fault_of(e) == Some((presence_fault(f)->Some_0, name@)),
        },
{
    match f {
        JsonField::Absent => Err(fault_error(FieldFault::Missing, name)),
        JsonField::Mistyped => Err(fault_error(FieldFault::Malformed, name)),
        JsonField::Present(v) => Ok(v),
    }
}

/// Validates the fields of a manifest document: every field but `difficulty` is required,
/// the id must fit in 16 bits and the difficulty must be a known token.
pub fn manifest_from_fields(fields: ManifestFields) -> (r: Result<PuzzleManifest, ManifestError>)
    ensures
        match r {
            Ok(m) => manifest_fault(fields@) is None && manifest_holds(m, fields@),
            Err(e) => manifest_fault(fields@) is Some && fault_of(e) == manifest_fault(fields@),
        },
{
    let ghost f = fields;
    let ManifestFields {
        title,
        id,
        starter,
        solution,
        readme_files,
        difficulty,
        categories,
        libraries,
    } = fields;
    let title = match take_required(title, "title") {
        Ok(v) => v,
        Err(e) => return Err(e),
    };
    let id = match id {
        JsonField::Present(n) => if n > 65535 {
            return Err(fault_error(FieldFault::Malformed, "id"));
        } else {
            n as u16
        },
        JsonField::Absent => return Err(fault_error(FieldFault::Missing, "id")),
        JsonField::Mistyped => return Err(fault_error(FieldFault::Malformed, "id")),
    };
    let starter = match take_required(starter, "starter") {
        Ok(v) => v,
        Err(e) => return Err(e),
    };
    let solution = match take_required(solution, "solution") {
        Ok(v) => v,
        Err(e) => return Err(e),
    };
    let readme_files = match take_required(readme_files, "readme_files") {
        Ok(v) => v,
        Err(e) => return Err(e),
    };
    let difficulty = match difficulty {
        JsonField::Absent => PuzzleDifficulty::Unspecified,
        JsonField::Mistyped => return Err(fault_error(FieldFault::Malformed, "difficulty")),
        JsonField::Present(token) => match parse_difficulty(token.as_str()) {
            Some(d) => d,
            None => return Err(fault_error(FieldFault::Malformed, "difficulty")),
        },
    };
    let categories = match take_required(categories, "categories") {
        Ok(v) => v,
        Err(e) => return Err(e),
    };
    let libraries = match take_required(libraries, "libraries") {
        Ok(v) => v,
        Err(e) => return Err(e),
    };
    Ok(PuzzleManifest { title, id, starter, solution, readme_files, difficulty, categories, libraries })
}

/// A JSON document. A number is kept as the `u64` it denotes, or `None` when it is
/// negative or fractional; an object keeps its members in the parser's order.
pub enum JsonValue {
    Null,
    Bool(bool),
    Number(Option<u64>),
    Str(String),
    Array(Vec<JsonValue>),
    Object(Vec<(String, JsonValue)>),
}

/// The document that serde_json reads from a text, or `None` when the text is not JSON.
pub uninterp spec fn json_of(text: Seq<char>) -> Option<JsonValue>;

/// serde_json's document type, converted into `JsonValue` as soon as it is parsed.
#[verifier::external_type_specification]
#[verifier::external_body]
pub struct ExJsonValue(serde_json::Value);

/// serde_json's parse error, carried through opaquely.
#[verifier::external_type_specification]
#[verifier::external_body]
pub struct ExJsonError(serde_json::Error);

/// Relies on `serde_json::from_str` into `serde_json::Value`: parses the text as one JSON
/// document, which depends on the text alone; the value is converted one for one.
#[verifier::external_body]
fn parse_json(text: &str) -> (r: Result<JsonValue, serde_json::Error>)
    ensures
        r is Ok <==> json_of(text@) is Some,
        r matches Ok(v) ==> json_of(text@) == Some(v),
{
    serde_json::from_str::<serde_json::Value>(text).map(json_value_from)
}

/// Converts serde_json's document into `JsonValue`, variant for variant; a number through
/// `serde_json::Number::as_u64`. Used by `parse_json` alone.
#[verifier::external_body]
fn json_value_from(v: serde_json::Value) -> JsonValue {
    match v {
        serde_json::Value::Null => JsonValue::Null,
        serde_json::Value::Bool(b) => JsonValue::Bool(b),
        serde_json::Value::Number(n) => JsonValue::Number(n.as_u64()),
        serde_json::Value::String(s) => JsonValue::Str(s),
        serde_json::Value::Array(a) => JsonValue::Array(a.into_iter().map(json_value_from).collect()),
        serde_json::Value::Object(o) => JsonValue::Object(
            o.into_iter().map(|(k, e)| (k, json_value_from(e))).collect(),
        ),
    }
}

/// Relies on serde_json's `Display` for its error: the parser's message.
#[verifier::external_body]
fn json_error_message(e: &serde_json::Error) -> String {
    e.to_string()
}

/// The value of the first member named `key`.
pub open spec fn member_of(members: Seq<(String, JsonValue)>, key: Seq<char>) -> Option<JsonValue>
    decreases members.len(),
{
    if members.len() == 0 {
        None
    } else if members[0].0@ == key {
        Some(members[0].1)
    } else {
        member_of(members.drop_first(), key)
    }
}

/// A member read as text.
pub open spec fn string_field_of(v: Option<JsonValue>) -> JsonField<Seq<char>> {
    match v {
        None => JsonField::Absent,
        Some(JsonValue::Str(s)) => JsonField::Present(s@),
        Some(_) => JsonField::Mistyped,
    }
}

/// A member read as a `u64`.
pub open spec fn u64_field_of(v: Option<JsonValue>) -> JsonField<u64> {
    match v {
        None => JsonField::Absent,
        Some(JsonValue::Number(Some(n))) => JsonField::Present(n),
        Some(_) => JsonField::Mistyped,
    }
}

/// A member read as a list of texts.
pub open spec fn list_field_of(v: Option<JsonValue>) -> JsonField<Seq<Seq<char>>> {
    match v {
        None => JsonField::Absent,
        Some(JsonValue::Array(items)) => if forall|i: int|
            0 <= i < items@.len() ==> (#[trigger] items@[i]) is Str {
            JsonField::Present(items@.map_values(|e: JsonValue| e->Str_0@))
        } else {
            JsonField::Mistyped
        },
        Some(_) => JsonField::Mistyped,
    }
}

/// The fields of a manifest object, each as found among its members.
pub open spec fn doc_fields(members: Seq<(String, JsonValue)>) -> FieldsView {
    FieldsView {
        title: string_field_of(member_of(members, "title"@)),
        id: u64_field_of(member_of(members, "id"@)),
        starter: list_field_of(member_of(members, "starter"@)),
        solution: list_field_of(member_of(members, "solution"@)),
        readme_files: list_field_of(member_of(members, "readme_files"@)),
        difficulty: string_field_of(member_of(members, "difficulty"@)),
        categories: list_field_of(member_of(members, "categories"@)),
        libraries: list_field_of(member_of(members, "libraries"@)),
    }
}

pub open spec fn some_ref(v: Option<&JsonValue>) -> Option<JsonValue> {
    match v {
        Some(x) => Some(*x),
        None => None,
    }
}

/// The value of the first member named `key`.
fn member<'a>(members: &'a Vec<(String, JsonValue)>, key: &str) -> (r: Option<&'a JsonValue>)
    ensures
        some_ref(r) == member_of(members@, key@),
{
    let name = String::from_str(key);
    let mut i: usize = 0;
    assert(members@.subrange(0, members@.len() as int) =~= members@);
    while i < members.len()
        invariant
            i <= members@.len(),
            name@ == key@,
            member_of(members@, key@) == member_of(members@.subrange(i as int, members@.len() as int), key@),
        decreases members.len() - i,
    {
        let ghost rest = members@.subrange(i as int, members@.len() as int);
        assert(rest.drop_first() =~= members@.subrange(i + 1, members@.len() as int));
        assert(rest[0] == members@[i as int]);
        let entry = &members[i];
        assert(*entry == members@[i as int]);
        if entry.0 == name {
            return Some(&entry.1);
        }
        i = i + 1;
    }
    None
}

fn read_string(v: Option<&JsonValue>) -> (r: JsonField<String>)
    ensures
        text_field(r) == string_field_of(some_ref(v)),
{
    match v {
        Some(JsonValue::Str(s)) => JsonField::Present(s.clone()),
        Some(_) => JsonField::Mistyped,
        None => JsonField::Absent,
    }
}

fn read_u64(v: Option<&JsonValue>) -> (r: JsonField<u64>)
    ensures
        r == u64_field_of(some_ref(v)),
{
    match v {
        Some(JsonValue::Number(Some(n))) => JsonField::Present(*n),
        Some(_) => JsonField::Mistyped,
        None => JsonField::Absent,
    }
}

fn read_string_list(v: Option<&JsonValue>) -> (r: JsonField<Vec<String>>)
    ensures
        list_field(r) == list_field_of(some_ref(v)),
{
    let doc = match v {
        Some(doc) => doc,
        None => return JsonField::Absent,
    };
    let items = match doc {
        JsonValue::Array(items) => items,
        _ => return JsonField::Mistyped,
    };
    let mut out: Vec<String> = Vec::new();
    let mut i: usize = 0;
    while i < items.len()
        invariant
            i <= items@.len(),
            some_ref(v) == Some(JsonValue::Array(*items)),
            out@.len() == i,
            forall|k: int| 0 <= k < i ==> (#[trigger] items@[k]) is Str,
            forall|k: int| 0 <= k < i ==> (#[trigger] out@[k])@ == items@[k]->Str_0@,
        decreases items.len() - i,
    {
        match &items[i] {
            JsonValue::Str(s) => out.push(s.clone()),
            _ => {
                assert(!(items@[i as int] is Str));
                return JsonField::Mistyped;
            },
        }
        i = i + 1;
    }
    assert(strings_of(out@) =~= items@.map_values(|e: JsonValue| e->Str_0@));
    JsonField::Present(out)
}

/// Finds each field among the members of a manifest object.
fn read_fields(members: &Vec<(String, JsonValue)>) -> (r: ManifestFields)
    ensures
        r@ == doc_fields(members@),
{
    ManifestFields {
        title: read_string(member(members, "title")),
        id: read_u64(member(members, "id")),
        starter: read_string_list(member(members, "starter")),
        solution: read_string_list(member(members, "solution")),
        readme_files: read_string_list(member(members, "readme_files")),
        difficulty: read_string(member(members, "difficulty")),
        categories: read_string_list(member(members, "categories")),
        libraries: read_string_list(member(members, "libraries")),
    }
}

/// Reads a manifest from its JSON text: a syntax error when the text is not a JSON object,
/// otherwise the outcome of validating the object's fields.
pub fn load_manifest(text: &str) -> (r: Result<PuzzleManifest, ManifestError>)
    ensures
        !(json_of(text@) matches Some(JsonValue::Object(_))) ==> r matches Err(
            ManifestError::Syntax(_),
        ),
        json_of(text@) matches Some(JsonValue::Object(members)) ==> match r {
            Ok(m) => manifest_fault(doc_fields(members@)) is None && manifest_holds(
                m,
                doc_fields(members@),
            ),
            Err(e) => manifest_fault(doc_fields(members@)) is Some && fault_of(e)
                == manifest_fault(doc_fields(members@)),
        },
{
    let doc = match parse_json(text) {
        Ok(doc) => doc,
        Err(e) => return Err(ManifestError::Syntax(json_error_message(&e))),
    };
    match &doc {
        JsonValue::Object(members) => manifest_from_fields(read_fields(members)),
        _ => Err(ManifestError::Syntax(String::from_str("the manifest is not a JSON object"))),
    }
}

} // verus!
