//! The EXIF fields of an image.

use exif::{Context, Exif, Value};
use vstd::prelude::*;

verus! {

/// The attributes that `exif` read from an image.
#[verifier::external_type_specification]
#[verifier::external_body]
pub struct ExExif(Exif);

/// The directory that gives a tag number its meaning.
#[derive(Debug, Clone, Copy, PartialEq, Eq, Structural)]
pub enum TagContext {
    Tiff,
    Exif,
    Gps,
    Interop,
    Other,
}

/// The value of a field, as far as the rules read it.
#[derive(Debug)]
pub enum FieldValue {
    Ascii(Vec<Vec<u8>>),
    Undefined(Vec<u8>),
    Rational(Vec<(u32, u32)>),
    /// A value of a type that is not known, of which only the count is.
    Unknown(u32),
    /// A value of any other type, of which only the count is read.
    Other(usize),
}

/// What the value of a field holds.
pub enum ValueView {
    Ascii(Seq<Seq<u8>>),
    Undefined(Seq<u8>),
    Rational(Seq<(u32, u32)>),
    Unknown(u32),
    Other(nat),
}

impl View for FieldValue {
    type V = ValueView;

    open spec fn view(&self) -> ValueView {
        match self {
            FieldValue::Ascii(values) => ValueView::Ascii(values@.map_values(|v: Vec<u8>| v@)),
            FieldValue::Undefined(bytes) => ValueView::Undefined(bytes@),
            FieldValue::Rational(values) => ValueView::Rational(values@),
            FieldValue::Unknown(count) => ValueView::Unknown(*count),
            FieldValue::Other(count) => ValueView::Other(*count as nat),
        }
    }
}

/// A field of the EXIF attributes of an image.
#[derive(Debug)]
pub struct ExifField {
    pub context: TagContext,
    /// The name of the context.
    pub context_name: String,
    pub number: u16,
    /// The name of the tag, or a description of it where it has none.
    pub name: String,
    /// Whether the tag is known.
    pub is_described: bool,
    /// The index of the image that the field belongs to.
    pub ifd: u16,
    pub value: FieldValue,
    /// The value as it is shown, with its unit.
    pub shown: String,
    /// The value as it is written for debugging.
    pub debug: String,
}

/// What a field says.
pub struct FieldView {
    pub context: TagContext,
    pub context_name: Seq<char>,
    pub number: u16,
    pub name: Seq<char>,
    pub is_described: bool,
    pub ifd: u16,
    pub value: ValueView,
    pub shown: Seq<char>,
    pub debug: Seq<char>,
}

impl View for ExifField {
    type V = FieldView;

    open spec fn view(&self) -> FieldView {
        FieldView {
            context: self.context,
            context_name: self.context_name@,
            number: self.number,
            name: self.name@,
            is_described: self.is_described,
            ifd: self.ifd,
            value: self.value@,
            shown: self.shown@,
            debug: self.debug@,
        }
    }
}

/// The EXIF attributes of an image.
#[derive(Debug)]
pub struct ExifData {
    pub fields: Vec<ExifField>,
    pub little_endian: bool,
}

pub struct ExifView {
    pub fields: Seq<FieldView>,
    pub little_endian: bool,
}

pub open spec fn field_views(fields: Seq<ExifField>) -> Seq<FieldView> {
    fields.map_values(|field: ExifField| field@)
}

impl View for ExifData {
    type V = ExifView;

    open spec fn view(&self) -> ExifView {
        ExifView { fields: field_views(self.fields@), little_endian: self.little_endian }
    }
}

/// What an `exif::Exif` holds: its fields in their order, and its byte order.
pub uninterp spec fn exif_contents(exif: Exif) -> ExifView;

/// The length of `Exif::fields`: the number of fields.
#[verifier::external_body]
fn field_count(exif: &Exif) -> (r: usize)
    ensures
        r == exif_contents(*exif).fields.len(),
{
    exif.fields().len()
}

/// `Exif::little_endian`.
#[verifier::external_body]
fn is_little_endian(exif: &Exif) -> (r: bool)
    ensures
        r == exif_contents(*exif).little_endian,
{
    exif.little_endian()
}

/// `Tag::context` of a field. A context beyond the four that the standard has is
/// told apart by its name only.
#[verifier::external_body]
fn field_context(exif: &Exif, i: usize) -> (r: Option<TagContext>)
    ensures
        i < exif_contents(*exif).fields.len() ==> r == Some(
            exif_contents(*exif).fields[i as int].context,
        ),
{
    exif.fields().nth(i).map(|field| match field.tag.context() {
        Context::Tiff => TagContext::Tiff,
        Context::Exif => TagContext::Exif,
        Context::Gps => TagContext::Gps,
        Context::Interop => TagContext::Interop,
        _ => TagContext::Other,
    })
}

/// The `Debug` of the `Tag::context` of a field.
#[verifier::external_body]
fn field_context_name(exif: &Exif, i: usize) -> (r: Option<String>)
    ensures
        i < exif_contents(*exif).fields.len() ==> r is Some && r->Some_0@ == exif_contents(
            *exif,
        ).fields[i as int].context_name,
{
    exif.fields().nth(i).map(|field| format!("{:?}", field.tag.context()))
}

/// `Tag::number` of a field.
#[verifier::external_body]
fn field_number(exif: &Exif, i: usize) -> (r: Option<u16>)
    ensures
        i < exif_contents(*exif).fields.len() ==> r == Some(
            exif_contents(*exif).fields[i as int].number,
        ),
{
    exif.fields().nth(i).map(|field| field.tag.number())
}

/// The `Display` of the tag of a field.
#[verifier::external_body]
fn field_name(exif: &Exif, i: usize) -> (r: Option<String>)
    ensures
        i < exif_contents(*exif).fields.len() ==> r is Some && r->Some_0@ == exif_contents(
            *exif,
        ).fields[i as int].name,
{
    exif.fields().nth(i).map(|field| field.tag.to_string())
}

/// Whether `Tag::description` of a field has one.
#[verifier::external_body]
fn field_is_described(exif: &Exif, i: usize) -> (r: bool)
    ensures
        i < exif_contents(*exif).fields.len() ==> r == exif_contents(
            *exif,
        ).fields[i as int].is_described,
{
    exif.fields().nth(i).is_some_and(|field| field.tag.description().is_some())
}

/// `In::index` of the image that a field belongs to.
#[verifier::external_body]
fn field_ifd(exif: &Exif, i: usize) -> (r: Option<u16>)
    ensures
        i < exif_contents(*exif).fields.len() ==> r == Some(
            exif_contents(*exif).fields[i as int].ifd,
        ),
{
    exif.fields().nth(i).map(|field| field.ifd_num.index())
}

/// The variant of the value of a field, with its fields, for the variants whose
/// fields are read.
#[verifier::external_body]
fn field_special_value(exif: &Exif, i: usize) -> (r: Option<FieldValue>)
    ensures
        i < exif_contents(*exif).fields.len() ==> match r {
            Some(value) => value@ == exif_contents(*exif).fields[i as int].value && !(
            value is Other),
            None => exif_contents(*exif).fields[i as int].value is Other,
        },
{
    exif.fields().nth(i).and_then(|field| match &field.value {
        Value::Ascii(v) => Some(FieldValue::Ascii(v.clone())),
        Value::Undefined(v, _) => Some(FieldValue::Undefined(v.clone())),
        Value::Rational(v) => Some(
            FieldValue::Rational(v.iter().map(|r| (r.num, r.denom)).collect()),
        ),
        Value::Unknown(_, count, _) => Some(FieldValue::Unknown(*count)),
        _ => None,
    })
}

/// How many values the value of a field holds, for the variants of which no more
/// is read.
#[verifier::external_body]
fn field_value_count(exif: &Exif, i: usize) -> (r: usize)
    ensures
        i < exif_contents(*exif).fields.len() && exif_contents(*exif).fields[i as int].value is Other
            ==> exif_contents(*exif).fields[i as int].value == ValueView::Other(r as nat),
{
    exif.fields().nth(i).map_or(0, |field| match &field.value {
        Value::Byte(v) => v.len(),
        Value::Short(v) => v.len(),
        Value::Long(v) => v.len(),
        Value::SByte(v) => v.len(),
        Value::SShort(v) => v.len(),
        Value::SLong(v) => v.len(),
        Value::SRational(v) => v.len(),
        Value::Float(v) => v.len(),
        Value::Double(v) => v.len(),
        _ => 0,
    })
}

fn field_value(exif: &Exif, i: usize) -> (r: FieldValue)
    requires
        i < exif_contents(*exif).fields.len(),
    ensures
        r@ == exif_contents(*exif).fields[i as int].value,
{
    match field_special_value(exif, i) {
        Some(value) => value,
        None => FieldValue::Other(field_value_count(exif, i)),
    }
}

/// `Field::display_value` of a field, with its unit.
#[verifier::external_body]
fn field_shown(exif: &Exif, i: usize) -> (r: Option<String>)
    ensures
        i < exif_contents(*exif).fields.len() ==> r is Some && r->Some_0@ == exif_contents(
            *exif,
        ).fields[i as int].shown,
{
    exif.fields().nth(i).map(|field| field.display_value().with_unit(exif).to_string())
}

/// The `Debug` of the value of a field.
#[verifier::external_body]
fn field_debug(exif: &Exif, i: usize) -> (r: Option<String>)
    ensures
        i < exif_contents(*exif).fields.len() ==> r is Some && r->Some_0@ == exif_contents(
            *exif,
        ).fields[i as int].debug,
{
    exif.fields().nth(i).map(|field| format!("{:?}", field.value))
}

fn read_field(exif: &Exif, i: usize) -> (r: ExifField)
    requires
        i < exif_contents(*exif).fields.len(),
    ensures
        r@ == exif_contents(*exif).fields[i as int],
{
    ExifField {
        context: field_context(exif, i).unwrap(),
        context_name: field_context_name(exif, i).unwrap(),
        number: field_number(exif, i).unwrap(),
        name: field_name(exif, i).unwrap(),
        is_described: field_is_described(exif, i),
        ifd: field_ifd(exif, i).unwrap(),
        value: field_value(exif, i),
        shown: field_shown(exif, i).unwrap(),
        debug: field_debug(exif, i).unwrap(),
    }
}

/// Reads off the attributes of an image what the rules need of them.
pub fn exif_data(exif: &Exif) -> (r: ExifData)
    ensures
        r@ == exif_contents(*exif),
{
    let count: usize = field_count(exif);
    let mut fields: Vec<ExifField> = Vec::new();
    let ghost all = exif_contents(*exif).fields;
    let mut i: usize = 0;
    while i < count
        invariant
            i <= count,
            count == all.len(),
            all == exif_contents(*exif).fields,
            fields@.len() == i,
            forall|k: int| 0 <= k < i ==> (#[trigger] fields@[k])@ == all[k],
        decreases count - i,
    {
        fields.push(read_field(exif, i));
        i += 1;
    }
    let r = ExifData { fields, little_endian: is_little_endian(exif) };
    proof {
        assert(field_views(r.fields@) =~= all);
    }
    r
}

/// The attributes of an image that has none.
pub open spec fn no_exif() -> ExifView {
    ExifView { fields: Seq::empty(), little_endian: false }
}

/// The attributes of an image that has none.
pub fn empty_exif() -> (r: ExifData)
    ensures
        r@ == no_exif(),
{
    let r = ExifData { fields: Vec::new(), little_endian: false };
    proof {
        assert(field_views(r.fields@) =~= Seq::empty());
    }
    r
}

/// What became of looking for EXIF attributes in an image.
pub enum ContainerReading {
    Read(Exif),
    NotFound,
    /// Some could be read, with these complaints.
    Partial(Exif, Vec<String>),
    Failed(String),
}

pub enum ReadingView {
    Read(ExifView),
    NotFound,
    Partial(ExifView, Seq<Seq<char>>),
    Failed(Seq<char>),
}

impl View for ContainerReading {
    type V = ReadingView;

    open spec fn view(&self) -> ReadingView {
        match self {
            ContainerReading::Read(exif) => ReadingView::Read(exif_contents(*exif)),
            ContainerReading::NotFound => ReadingView::NotFound,
            ContainerReading::Partial(exif, errors) => ReadingView::Partial(
                exif_contents(*exif),
                crate::text::texts(errors@),
            ),
            ContainerReading::Failed(error) => ReadingView::Failed(error@),
        }
    }
}

/// What the bytes of an image file hold of EXIF attributes.
pub uninterp spec fn container_reading(bytes: Seq<u8>) -> ReadingView;

/// `Reader::read_from_container` with `continue_on_error`, on the bytes of a
/// file: the attributes, those of a partial result with the messages of the
/// errors that were passed over, or the message of the error. It depends on
/// nothing but the bytes.
#[verifier::external_body]
fn read_container(bytes: &Vec<u8>) -> (r: ContainerReading)
    ensures
        r@ == container_reading(bytes@),
{
    let mut bytes = std::io::Cursor::new(bytes);
    match exif::Reader::new().continue_on_error(true).read_from_container(&mut bytes) {
        Ok(exif) => ContainerReading::Read(exif),
        Err(exif::Error::NotFound(_)) => ContainerReading::NotFound,
        Err(exif::Error::PartialResult(partial)) => {
            let (exif, errors) = partial.into_inner();
            let errors = errors.into_iter().map(|error| error.to_string()).collect();
            ContainerReading::Partial(exif, errors)
        },
        Err(error) => ContainerReading::Failed(error.to_string()),
    }
}

/// What a reading of an image comes to: the attributes with complaints, or why
/// there are none. An image without attributes counts as one with none.
pub open spec fn reading_outcome(image: Seq<char>, reading: ReadingView) -> Result<
    (ExifView, Seq<Seq<char>>),
    Seq<char>,
> {
    match reading {
        ReadingView::Read(exif) => Ok((exif, Seq::empty())),
        ReadingView::NotFound => Ok((no_exif(), Seq::empty())),
        ReadingView::Partial(exif, errors) => Ok((exif, errors)),
        ReadingView::Failed(error) => Err(
            "failed to read EXIF metadata from "@ + image + ": "@ + error,
        ),
    }
}

/// Whether attributes with complaints, or an error, are what a reading comes to.
pub open spec fn is_outcome(
    r: Result<(ExifData, Vec<String>), String>,
    image: Seq<char>,
    reading: ReadingView,
) -> bool {
    match (r, reading_outcome(image, reading)) {
        (Ok(found), Ok(expected)) => found.0@ == expected.0 && crate::text::texts(found.1@)
            == expected.1,
        (Err(error), Err(expected)) => error@ == expected,
        _ => false,
    }
}

/// What a reading of the image at `image` comes to.
pub fn interpret_reading(image: &str, reading: ContainerReading) -> (r: Result<
    (ExifData, Vec<String>),
    String,
>)
    ensures
        is_outcome(r, image@, reading@),
{
    let none: Vec<String> = Vec::new();
    proof {
        assert(crate::text::texts(none@) =~= Seq::empty());
    }
    match reading {
        ContainerReading::Read(exif) => Ok((exif_data(&exif), none)),
        ContainerReading::NotFound => Ok((empty_exif(), none)),
        ContainerReading::Partial(exif, errors) => Ok((exif_data(&exif), errors)),
        ContainerReading::Failed(error) => {
            let mut message = "failed to read EXIF metadata from ".to_owned();
            message.push_str(image);
            message.push_str(": ");
            message.push_str(error.as_str());
            Err(message)
        },
    }
}

/// The EXIF attributes in the bytes of the image file at `image`.
pub fn read_exif(image: &str, bytes: &Vec<u8>) -> (r: Result<(ExifData, Vec<String>), String>)
    ensures
        is_outcome(r, image@, container_reading(bytes@)),
{
    interpret_reading(image, read_container(bytes))
}

} // verus!
