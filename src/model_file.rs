//! Model description files: a JSON object naming the model, its vertex data and
//! layout, and, for indexed models, its element indices.
use json::JsonValue;
use vstd::prelude::*;
use vstd::string::StringSliceAdditionalSpecFns;

verus! {

broadcast use vstd::string::group_string_axioms;

/// A JSON number as sign, decimal mantissa and decimal exponent.
#[derive(Clone, Copy, PartialEq, Eq, Debug, Structural)]
pub struct JsonNumber {
    pub positive: bool,
    pub mantissa: u64,
    pub exponent: i16,
}

/// A JSON document.
#[derive(Debug)]
pub enum Json {
    Null,
    Bool(bool),
    Number(JsonNumber),
    Str(String),
    Array(Vec<Json>),
    Object(Vec<(String, Json)>),
}

/// The fields of a model file.
#[derive(Clone, Copy, PartialEq, Eq, Debug, Structural)]
pub enum Field {
    Type,
    Name,
    Description,
    Vertices,
    Indices,
}

/// The two kinds of model: indexed (`"element"`) and plain (`"array"`).
#[derive(Clone, Copy, PartialEq, Eq, Debug, Structural)]
pub enum ModelKind {
    Element,
    Array,
}

/// Why a model file was refused.
#[derive(Clone, PartialEq, Eq, Debug)]
pub enum ModelFileError {
    /// The document is not an object.
    NotObject,
    /// A required field is absent.
    MissingField(Field),
    /// A field that must be a string is not one.
    InvalidField(Field),
    /// A field that must be an array is not one.
    NotArray(Field),
    /// An array holds something other than a number.
    NotNumber(Field),
    /// An index is not a whole number from 0 to `u32::MAX`.
    BadIndex,
    /// The `type` field names no known kind of model.
    UnknownType(String),
}

/// A model file's contents.
#[derive(Clone, PartialEq, Debug)]
pub struct ModelFile {
    pub kind: ModelKind,
    pub name: String,
    pub vertices: Vec<JsonNumber>,
    pub indices: Vec<u32>,
    pub description: String,
}

/// The key under which a field is stored.
pub open spec fn field_key(f: Field) -> Seq<char> {
    match f {
        Field::Type => "type"@,
        Field::Name => "name"@,
        Field::Description => "description"@,
        Field::Vertices => "vertices"@,
        Field::Indices => "indices"@,
    }
}

/// The value of the first entry of `fields` with key `key`.
pub open spec fn lookup(fields: Seq<(String, Json)>, key: Seq<char>) -> Option<Json>
    decreases fields.len(),
{
    if fields.len() == 0 {
        None
    } else if fields[0].0@ == key {
        Some(fields[0].1)
    } else {
        lookup(fields.drop_first(), key)
    }
}

/// The index a JSON value gives, if it is a whole number that fits a `u32`.
pub open spec fn index_value(j: Json) -> Option<u32> {
    match j {
        Json::Number(n) => if n.positive && n.exponent == 0 && n.mantissa <= u32::MAX {
            Some(n.mantissa as u32)
        } else {
            None
        },
        _ => None,
    }
}

/// Item `i` is the first that is not a valid index.
pub open spec fn first_bad_index(items: Seq<Json>, i: int) -> bool {
    &&& 0 <= i < items.len()
    &&& index_value(items[i]) is None
    &&& forall|j: int| 0 <= j < i ==> (#[trigger] index_value(items[j])) is Some
}

/// The indices that `items` give, or why they are refused.
pub open spec fn indices_spec(items: Seq<Json>) -> Result<Seq<u32>, ModelFileError> {
    if exists|i: int| first_bad_index(items, i) {
        let i = choose|i: int| first_bad_index(items, i);
        if items[i] is Number {
            Err(ModelFileError::BadIndex)
        } else {
            Err(ModelFileError::NotNumber(Field::Indices))
        }
    } else {
        Ok(Seq::new(items.len(), |i: int| index_value(items[i])->0))
    }
}

/// The numbers that `items` hold, if all of them are numbers.
pub open spec fn numbers_spec(items: Seq<Json>) -> Option<Seq<JsonNumber>> {
    if forall|i: int| 0 <= i < items.len() ==> (#[trigger] items[i]) is Number {
        Some(Seq::new(items.len(), |i: int| items[i]->Number_0))
    } else {
        None
    }
}

/// The contents of a model file: kind, name, vertices, indices and description.
pub type ModelSpec = (ModelKind, Seq<char>, Seq<JsonNumber>, Seq<u32>, Seq<char>);

/// The body of a model file of the given kind, or why it is refused.
pub open spec fn body_spec(fs: Seq<(String, Json)>, kind: ModelKind) -> Result<ModelSpec, ModelFileError> {
    let indexed = kind == ModelKind::Element;
    let name = lookup(fs, field_key(Field::Name));
    let desc = lookup(fs, field_key(Field::Description));
    let verts = lookup(fs, field_key(Field::Vertices));
    let inds = lookup(fs, field_key(Field::Indices));
    if name is None {
        Err(ModelFileError::MissingField(Field::Name))
    } else if desc is None {
        Err(ModelFileError::MissingField(Field::Description))
    } else if verts is None {
        Err(ModelFileError::MissingField(Field::Vertices))
    } else if indexed && inds is None {
        Err(ModelFileError::MissingField(Field::Indices))
    } else if !(name->0 is Str) {
        Err(ModelFileError::InvalidField(Field::Name))
    } else if !(desc->0 is Str) {
        Err(ModelFileError::InvalidField(Field::Description))
    } else if !(verts->0 is Array) {
        Err(ModelFileError::NotArray(Field::Vertices))
    } else if indexed && !(inds->0 is Array) {
        Err(ModelFileError::NotArray(Field::Indices))
    } else if numbers_spec(verts->0->Array_0@) is None {
        Err(ModelFileError::NotNumber(Field::Vertices))
    } else if indexed && indices_spec(inds->0->Array_0@) is Err {
        Err(indices_spec(inds->0->Array_0@)->Err_0)
    } else {
        Ok(
            (
                kind,
                name->0->Str_0@,
                numbers_spec(verts->0->Array_0@)->0,
                if indexed {
                    indices_spec(inds->0->Array_0@)->Ok_0
                } else {
                    Seq::empty()
                },
                desc->0->Str_0@,
            ),
        )
    }
}

/// What a model file document holds, or why it is refused.
pub open spec fn model_spec(doc: Json) -> Result<ModelSpec, ModelFileError> {
    match doc {
        Json::Object(fields) => match lookup(fields@, field_key(Field::Type)) {
            None => Err(ModelFileError::MissingField(Field::Type)),
            Some(Json::Str(t)) => if t@ == "element"@ {
                body_spec(fields@, ModelKind::Element)
            } else if t@ == "array"@ {
                body_spec(fields@, ModelKind::Array)
            } else {
                Err(ModelFileError::UnknownType(t))
            },
            Some(_) => Err(ModelFileError::InvalidField(Field::Type)),
        },
        _ => Err(ModelFileError::NotObject),
    }
}

/// `m` holds what `s` describes.
pub open spec fn holds(m: ModelFile, s: ModelSpec) -> bool {
    (m.kind, m.name@, m.vertices@, m.indices@, m.description@) == s
}


/// The key under which `f` is stored.
fn key_of(f: Field) -> (r: String)
    ensures
        r@ == field_key(f),
{
    match f {
        Field::Type => "type".to_string(),
        Field::Name => "name".to_string(),
        Field::Description => "description".to_string(),
        Field::Vertices => "vertices".to_string(),
        Field::Indices => "indices".to_string(),
    }
}

/// The value stored under `f`, if any.
fn find_field(fields: &Vec<(String, Json)>, f: Field) -> (r: Option<&Json>)
    ensures
        match r {
            Some(j) => lookup(fields@, field_key(f)) == Some(*j),
            None => lookup(fields@, field_key(f)) is None,
        },
{
    let key = key_of(f);
    let mut i: usize = 0;
    proof {
        assert(fields@.subrange(0, fields@.len() as int) =~= fields@);
    }
    while i < fields.len()
        invariant
            i <= fields@.len(),
            key@ == field_key(f),
            lookup(fields@, key@) == lookup(fields@.subrange(i as int, fields@.len() as int), key@),
        decreases fields@.len() - i,
    {
        let ghost rest = fields@.subrange(i as int, fields@.len() as int);
        assert(rest.drop_first() =~= fields@.subrange(i + 1, fields@.len() as int));
        assert(rest[0] == fields@[i as int]);
        if fields[i].0 == key {
            return Some(&fields[i].1);
        }
        i += 1;
    }
    None
}

/// The numbers `items` hold, if all of them are numbers.
fn read_numbers(items: &Vec<Json>) -> (r: Option<Vec<JsonNumber>>)
    ensures
        match r {
            Some(v) => numbers_spec(items@) == Some(v@),
            None => numbers_spec(items@) is None,
        },
{
    let mut out: Vec<JsonNumber> = Vec::new();
    let mut i: usize = 0;
    while i < items.len()
        invariant
            i <= items@.len(),
            out@.len() == i,
            forall|j: int| 0 <= j < i ==> (#[trigger] items@[j]) is Number && out@[j] == items@[j]->Number_0,
        decreases items@.len() - i,
    {
        match &items[i] {
            Json::Number(n) => out.push(*n),
            _ => {
                assert(!(items@[i as int] is Number));
                return None;
            },
        }
        i += 1;
    }
    assert(out@ =~= Seq::new(items@.len(), |j: int| items@[j]->Number_0));
    Some(out)
}

/// The indices `items` give, or why they are refused.
fn read_indices(items: &Vec<Json>) -> (r: Result<Vec<u32>, ModelFileError>)
    ensures
        match r {
            Ok(v) => indices_spec(items@) == Ok::<Seq<u32>, ModelFileError>(v@),
            Err(e) => indices_spec(items@) == Err::<Seq<u32>, ModelFileError>(e),
        },
{
    let mut out: Vec<u32> = Vec::new();
    let mut i: usize = 0;
    while i < items.len()
        invariant
            i <= items@.len(),
            out@.len() == i,
            forall|j: int|
                0 <= j < i ==> (#[trigger] index_value(items@[j])) == Some(out@[j]),
        decreases items@.len() - i,
    {
        let bad = match &items[i] {
            Json::Number(n) => {
                if n.positive && n.exponent == 0 && n.mantissa <= 0xffff_ffff {
                    out.push(n.mantissa as u32);
                    None
                } else {
                    Some(ModelFileError::BadIndex)
                }
            },
            _ => Some(ModelFileError::NotNumber(Field::Indices)),
        };
        if let Some(e) = bad {
            proof {
                assert(first_bad_index(items@, i as int));
                let k = choose|k: int| first_bad_index(items@, k);
                if k < i {
                    assert(index_value(items@[k]) is Some);
                } else if k > i {
                    assert(index_value(items@[i as int]) is Some);
                }
            }
            return Err(e);
        }
        i += 1;
    }
    proof {
        assert forall|k: int| !first_bad_index(items@, k) by {
            if 0 <= k < items@.len() {
                assert(index_value(items@[k]) == Some(out@[k]));
            }
        }
        assert(out@ =~= Seq::new(items@.len(), |j: int| index_value(items@[j])->0));
    }
    Ok(out)
}

/// Reads the body of a model file of the given kind.
fn read_body(fs: &Vec<(String, Json)>, kind: ModelKind) -> (r: Result<ModelFile, ModelFileError>)
    ensures
        match r {
            Ok(m) => body_spec(fs@, kind) == Ok::<ModelSpec, ModelFileError>(
                (m.kind, m.name@, m.vertices@, m.indices@, m.description@),
            ),
            Err(e) => body_spec(fs@, kind) == Err::<ModelSpec, ModelFileError>(e),
        },
{
    let indexed = kind == ModelKind::Element;
    let name = find_field(fs, Field::Name);
    let desc = find_field(fs, Field::Description);
    let verts = find_field(fs, Field::Vertices);
    let inds = find_field(fs, Field::Indices);
    let name = match name {
        None => return Err(ModelFileError::MissingField(Field::Name)),
        Some(j) => j,
    };
    let desc = match desc {
        None => return Err(ModelFileError::MissingField(Field::Description)),
        Some(j) => j,
    };
    let verts = match verts {
        None => return Err(ModelFileError::MissingField(Field::Vertices)),
        Some(j) => j,
    };
    if indexed && inds.is_none() {
        return Err(ModelFileError::MissingField(Field::Indices));
    }
    let name = match name {
        Json::Str(s) => s,
        _ => return Err(ModelFileError::InvalidField(Field::Name)),
    };
    let desc = match desc {
        Json::Str(s) => s,
        _ => return Err(ModelFileError::InvalidField(Field::Description)),
    };
    let verts = match verts {
        Json::Array(v) => v,
        _ => return Err(ModelFileError::NotArray(Field::Vertices)),
    };
    let mut index_items: Option<&Vec<Json>> = None;
    if indexed {
        match inds {
            Some(Json::Array(v)) => {
                index_items = Some(v);
            },
            _ => return Err(ModelFileError::NotArray(Field::Indices)),
        }
    }
    let vertices = match read_numbers(verts) {
        None => return Err(ModelFileError::NotNumber(Field::Vertices)),
        Some(v) => v,
    };
    let indices = match index_items {
        Some(items) => match read_indices(items) {
            Ok(v) => v,
            Err(e) => return Err(e),
        },
        None => Vec::new(),
    };
    Ok(
        ModelFile {
            kind,
            name: name.clone(),
            vertices,
            indices,
            description: desc.clone(),
        },
    )
}

/// Reads a model file: an object whose `type` is `"element"` or `"array"`, with a
/// string `name`, a string `description` of the vertex layout, an array of numbers
/// `vertices` and, for `"element"`, an array of indices `indices`.
pub fn decode_model(doc: &Json) -> (r: Result<ModelFile, ModelFileError>)
    ensures
        match r {
            Ok(m) => model_spec(*doc) is Ok && holds(m, model_spec(*doc)->Ok_0),
            Err(e) => model_spec(*doc) == Err::<ModelSpec, ModelFileError>(e),
        },
{
    let fields = match doc {
        Json::Object(fields) => fields,
        _ => return Err(ModelFileError::NotObject),
    };
    match find_field(fields, Field::Type) {
        None => Err(ModelFileError::MissingField(Field::Type)),
        Some(Json::Str(t)) => {
            if *t == "element".to_string() {
                read_body(fields, ModelKind::Element)
            } else if *t == "array".to_string() {
                read_body(fields, ModelKind::Array)
            } else {
                Err(ModelFileError::UnknownType(t.clone()))
            }
        },
        Some(_) => Err(ModelFileError::InvalidField(Field::Type)),
    }
}

/// `json::JsonValue`, carried as an opaque value from the parser to `document_of`.
#[verifier::external_type_specification]
#[verifier::external_body]
pub struct ExJsonValue(json::JsonValue);

/// `json::number::Number`, carried as an opaque value to `number_parts`.
#[verifier::external_type_specification]
#[verifier::external_body]
pub struct ExJsonNumber(json::number::Number);

/// Relies on `json::number::Number::as_parts`: the sign, mantissa and exponent.
#[verifier::external_body]
fn number_parts(n: &json::number::Number) -> (r: JsonNumber) {
    let (positive, mantissa, exponent) = n.as_parts();
    JsonNumber { positive, mantissa, exponent }
}

/// Relies on the variants of `json::JsonValue`: the same document, value for value.
#[verifier::external_body]
fn document_of(v: &JsonValue) -> (r: Json) {
    match v {
        JsonValue::Null => Json::Null,
        JsonValue::Short(s) => Json::Str(s.to_string()),
        JsonValue::String(s) => Json::Str(s.clone()),
        JsonValue::Number(n) => Json::Number(number_parts(n)),
        JsonValue::Boolean(b) => Json::Bool(*b),
        JsonValue::Object(o) => Json::Object(o.iter().map(|(k, x)| (k.to_string(), document_of(x))).collect()),
        JsonValue::Array(a) => Json::Array(a.iter().map(document_of).collect()),
    }
}

/// The longest run of decimal digits passed to the parser. The parser lowers an
/// `i16` exponent once per digit of a fraction whose mantissa stays small, which
/// overflows past 32768 such digits.
pub const MAX_DIGIT_RUN: usize = 32767;

/// Whether a byte is an ASCII decimal digit.
pub open spec fn is_digit_byte(b: u8) -> bool {
    0x30 <= b <= 0x39
}

/// The number of digits directly before position `k` of `b`.
pub open spec fn run_before(b: Seq<u8>, k: int) -> nat
    decreases k,
{
    if k <= 0 {
        0
    } else if is_digit_byte(b[k - 1]) {
        run_before(b, k - 1) + 1
    } else {
        0
    }
}

/// No run of digits in `b` is longer than `MAX_DIGIT_RUN`.
pub open spec fn digit_runs_bounded(b: Seq<u8>) -> bool {
    forall|k: int| 0 <= k <= b.len() ==> #[trigger] run_before(b, k) <= MAX_DIGIT_RUN
}

/// Whether no run of digits in `text` is longer than `MAX_DIGIT_RUN`.
pub fn digit_runs_ok(text: &str) -> (r: bool)
    ensures
        r == digit_runs_bounded(text.spec_bytes()),
{
    let bytes = text.as_bytes();
    let mut run: usize = 0;
    let mut i: usize = 0;
    while i < bytes.len()
        invariant
            bytes@ == text.spec_bytes(),
            i <= bytes@.len(),
            run == run_before(bytes@, i as int),
            forall|k: int| 0 <= k <= i ==> #[trigger] run_before(bytes@, k) <= MAX_DIGIT_RUN,
        decreases bytes@.len() - i,
    {
        let b = bytes[i];
        if 0x30 <= b && b <= 0x39 {
            if run == MAX_DIGIT_RUN {
                assert(run_before(bytes@, i + 1) > MAX_DIGIT_RUN);
                return false;
            }
            run += 1;
        } else {
            run = 0;
        }
        i += 1;
    }
    true
}

/// The document that `text` holds as JSON, if it is JSON.
pub uninterp spec fn parsed_document(text: Seq<char>) -> Option<Json>;

/// Relies on `json::parse` and the variant conversion `document_of`: the document
/// depends on the text alone. Long digit runs are left out, where the parser's
/// exponent would overflow.
#[verifier::external_body]
fn parse_document(text: &str) -> (r: Option<Json>)
    requires
        digit_runs_bounded(text.spec_bytes()),
    ensures
        r == parsed_document(text@),
{
    json::parse(text).ok().map(|v| document_of(&v))
}

/// Why a model file's text was refused.
#[derive(Clone, PartialEq, Eq, Debug)]
pub enum LoadError {
    /// Some run of digits is longer than `MAX_DIGIT_RUN`.
    NumberTooLong,
    /// The text is not JSON.
    Syntax,
    /// The document is not a model file.
    Model(ModelFileError),
}

/// Reads a model file from its text: the JSON document it holds, decoded by
/// `decode_model`.
pub fn load_model(text: &str) -> (r: Result<ModelFile, LoadError>)
    ensures
        !digit_runs_bounded(text.spec_bytes()) ==> (r matches Err(LoadError::NumberTooLong)),
        digit_runs_bounded(text.spec_bytes()) ==> match parsed_document(text@) {
            None => r matches Err(LoadError::Syntax),
            Some(d) => match model_spec(d) {
                Ok(s) => r is Ok && holds(r->Ok_0, s),
                Err(e) => r == Err::<ModelFile, LoadError>(LoadError::Model(e)),
            },
        },
{
    if !digit_runs_ok(text) {
        return Err(LoadError::NumberTooLong);
    }
    match parse_document(text) {
        None => Err(LoadError::Syntax),
        Some(doc) => match decode_model(&doc) {
            Ok(m) => Ok(m),
            Err(e) => Err(LoadError::Model(e)),
        },
    }
}

} // verus!
