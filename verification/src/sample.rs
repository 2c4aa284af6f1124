//! Samples as the REST interface sees them, and their JSON and HTML renderings.
use vstd::prelude::*;
use vstd::utf8::{decode_utf8, valid_utf8};
use crate::encoding::{Encoding, KnownEncoding, encoding_of_text, encoding_text, lemma_known_content_types};
use crate::base64_text::{base64_decoded, base64_standard, lemma_base64_reads_back};
use crate::json_text::{json_quoted, json_string_value, lemma_json_quoted_reads_back};
use crate::outside::{base64_encode, json_quote, utf8_decode, utf8_lossy, utf8_lossy_text};
use crate::properties::{properties_json, properties_to_json};
use crate::text::{join_with, owned, push_char, push_str, seq_join, strings_view};

verus! {

/// A value: its payload bytes and their encoding.
pub struct Value {
    pub payload: Vec<u8>,
    pub encoding: Encoding,
}

/// What a sample does to its key.
#[derive(PartialEq, Eq, Structural, Debug, Clone, Copy)]
pub enum SampleKind {
    Put,
    Patch,
    Delete,
}

impl Default for SampleKind {
    fn default() -> (k: SampleKind)
        ensures
            k == SampleKind::Put,
    {
        SampleKind::Put
    }
}

/// The name of a sample kind, as events of an SSE stream carry it.
pub open spec fn kind_text(k: SampleKind) -> Seq<char> {
    match k {
        SampleKind::Put => "PUT"@,
        SampleKind::Patch => "PATCH"@,
        SampleKind::Delete => "DELETE"@,
    }
}

/// The name of a sample kind.
pub fn kind_name(k: SampleKind) -> (n: &'static str)
    ensures
        n@ == kind_text(k),
{
    match k {
        SampleKind::Put => "PUT",
        SampleKind::Patch => "PATCH",
        SampleKind::Delete => "DELETE",
    }
}

/// A sample: a value published on a key expression, with its kind and, when it has one, the
/// text of its timestamp.
pub struct Sample {
    pub key_expr: String,
    pub value: Value,
    pub kind: SampleKind,
    pub timestamp: Option<String>,
}

/// The text of a payload: the payload itself when it is valid UTF-8, its Base64 text
/// otherwise.
pub open spec fn value_text(payload: Seq<u8>) -> Seq<char> {
    if valid_utf8(payload) {
        decode_utf8(payload)
    } else {
        base64_standard(payload)
    }
}

/// The text of a value.
pub fn value_to_string(v: &Value) -> (t: String)
    ensures
        t@ == value_text(v.payload@),
{
    match utf8_decode(v.payload.as_slice()) {
        Some(t) => t,
        None => base64_encode(v.payload.as_slice()),
    }
}

/// How a value is written in JSON.
#[derive(PartialEq, Eq, Structural, Debug, Clone, Copy)]
pub enum JsonForm {
    /// Its text, as a JSON string.
    Quoted,
    /// Its text read as a property list, as a JSON object.
    Properties,
    /// Its text as it is (it is JSON already).
    Verbatim,
    /// The Base64 text of its payload, as a JSON string.
    Encoded,
}

/// How a value of the encoding `e` is written in JSON: plain text is quoted, property lists
/// become objects, JSON, integers and floats are written as they are, and everything else
/// goes as Base64.
pub open spec fn json_form_of(e: Encoding) -> JsonForm {
    if e.prefix == KnownEncoding::TextPlain {
        JsonForm::Quoted
    } else if e.prefix == KnownEncoding::AppProperties {
        JsonForm::Properties
    } else if e.prefix == KnownEncoding::AppJson || e.prefix == KnownEncoding::AppInteger
        || e.prefix == KnownEncoding::AppFloat {
        JsonForm::Verbatim
    } else {
        JsonForm::Encoded
    }
}

/// The JSON text of a value.
pub open spec fn value_json(v: Value) -> Seq<char> {
    match json_form_of(v.encoding) {
        JsonForm::Quoted => json_quoted(value_text(v.payload@)),
        JsonForm::Properties => properties_json(value_text(v.payload@)),
        JsonForm::Verbatim => value_text(v.payload@),
        JsonForm::Encoded => seq!['"'] + base64_standard(v.payload@) + seq!['"'],
    }
}

/// A value published with a plain-text, JSON or property-list content type is read back as
/// the JSON string of its text, as its text itself, or as the JSON object of its properties.
pub proof fn lemma_written_value_json(v: Value, content_type: Seq<char>)
    requires
        (v.encoding.prefix, v.encoding.suffix@) == encoding_of_text(content_type),
    ensures
        "text/plain"@.is_prefix_of(content_type) ==> value_json(v) == json_quoted(value_text(v.payload@)),
        "application/json"@.is_prefix_of(content_type) ==> value_json(v) == value_text(v.payload@),
        "application/properties"@.is_prefix_of(content_type) ==> value_json(v) == properties_json(value_text(v.payload@)),
{
    lemma_known_content_types(content_type);
}

/// The JSON of a plain-text value is one JSON string literal that reads back as the value's
/// text, and the JSON of a value written as Base64 is a quoted Base64 text that reads back
/// as the value's payload.
pub proof fn lemma_value_json_reads_back(v: Value)
    ensures
        json_form_of(v.encoding) == JsonForm::Quoted ==> json_string_value(value_json(v)) == Some(value_text(v.payload@)),
        json_form_of(v.encoding) == JsonForm::Encoded ==> {
            let t = value_json(v);
            &&& t.len() >= 2
            &&& t[0] == '"'
            &&& t.last() == '"'
            &&& base64_decoded(t.subrange(1, t.len() - 1)) == Some(v.payload@)
        },
{
    lemma_json_quoted_reads_back(value_text(v.payload@));
    lemma_base64_reads_back(v.payload@);
    if json_form_of(v.encoding) == JsonForm::Encoded {
        let t = value_json(v);
        assert(t.subrange(1, t.len() - 1) =~= base64_standard(v.payload@));
    }
}

/// Only JSON, integers and floats are written as they are; a value of any encoding but plain
/// text, property lists, JSON, integers and floats is written as the quoted Base64 text of its
/// payload, whatever that payload holds.
pub proof fn lemma_other_encodings_as_base64(v: Value)
    ensures
        json_form_of(v.encoding) == JsonForm::Verbatim <==> (v.encoding.prefix == KnownEncoding::AppJson
            || v.encoding.prefix == KnownEncoding::AppInteger || v.encoding.prefix
            == KnownEncoding::AppFloat),
        v.encoding.prefix != KnownEncoding::TextPlain && v.encoding.prefix
            != KnownEncoding::AppProperties && v.encoding.prefix != KnownEncoding::AppJson
            && v.encoding.prefix != KnownEncoding::AppInteger && v.encoding.prefix
            != KnownEncoding::AppFloat ==> value_json(v) == seq!['"'] + base64_standard(v.payload@)
            + seq!['"'],
{
}

/// Chooses how a value of the encoding `e` is written in JSON, by the known encodings that
/// `e` refines.
pub fn json_form(e: &Encoding) -> (f: JsonForm)
    ensures
        f == json_form_of(*e),
{
    if e.starts_with(&Encoding::exact(KnownEncoding::TextPlain)) {
        JsonForm::Quoted
    } else if e.starts_with(&Encoding::exact(KnownEncoding::AppProperties)) {
        JsonForm::Properties
    } else if e.starts_with(&Encoding::exact(KnownEncoding::AppJson)) {
        JsonForm::Verbatim
    } else if e.starts_with(&Encoding::exact(KnownEncoding::AppInteger)) || e.starts_with(
        &Encoding::exact(KnownEncoding::AppFloat),
    ) {
        JsonForm::Verbatim
    } else {
        JsonForm::Encoded
    }
}

/// Writes a value in JSON.
pub fn value_to_json(v: &Value) -> (t: String)
    ensures
        t@ == value_json(*v),
{
    match json_form(&v.encoding) {
        JsonForm::Quoted => {
            let text = value_to_string(v);
            json_quote(text.as_str())
        },
        JsonForm::Properties => {
            let text = value_to_string(v);
            properties_to_json(text.as_str())
        },
        JsonForm::Verbatim => value_to_string(v),
        JsonForm::Encoded => {
            let encoded = base64_encode(v.payload.as_slice());
            let mut t = String::new();
            push_char(&mut t, '"');
            push_str(&mut t, encoded.as_str());
            push_char(&mut t, '"');
            t
        },
    }
}

/// The JSON object of a sample whose value is already written as `value_json`. The key
/// expression and the encoding go between quotes as they are; a sample without timestamp
/// has the time `None`.
pub open spec fn sample_json_text(
    key: Seq<char>,
    value_json: Seq<char>,
    encoding: Seq<char>,
    time: Option<Seq<char>>,
) -> Seq<char> {
    "{ \"key\": \""@ + key + "\", \"value\": "@ + value_json + ", \"encoding\": \""@ + encoding
        + "\", \"time\": \""@ + match time {
        Some(t) => t,
        None => "None"@,
    } + "\" }"@
}

/// The JSON object of a sample.
pub open spec fn sample_json(s: Sample) -> Seq<char> {
    sample_json_text(
        s.key_expr@,
        value_json(s.value),
        encoding_text(s.value.encoding),
        match s.timestamp {
            Some(t) => Some(t@),
            None => None,
        },
    )
}

/// Writes the JSON object of a sample whose value is already written as `value_json`.
pub fn render_sample_json(key: &str, value_json: &str, encoding: &str, time: Option<&str>) -> (t: String)
    ensures
        t@ == sample_json_text(key@, value_json@, encoding@, match time {
            Some(x) => Some(x@),
            None => None,
        }),
{
    let mut t = owned("{ \"key\": \"");
    push_str(&mut t, key);
    push_str(&mut t, "\", \"value\": ");
    push_str(&mut t, value_json);
    push_str(&mut t, ", \"encoding\": \"");
    push_str(&mut t, encoding);
    push_str(&mut t, "\", \"time\": \"");
    match time {
        Some(x) => push_str(&mut t, x),
        None => push_str(&mut t, "None"),
    }
    push_str(&mut t, "\" }");
    t
}

/// Writes the JSON object of a sample.
pub fn sample_to_json(s: &Sample) -> (t: String)
    ensures
        t@ == sample_json(*s),
{
    let value_json = value_to_json(&s.value);
    let encoding = s.value.encoding.to_text();
    let time: Option<&str> = match &s.timestamp {
        Some(x) => Some(x.as_str()),
        None => None,
    };
    render_sample_json(s.key_expr.as_str(), value_json.as_str(), encoding.as_str(), time)
}

/// The JSON array of already written items, one per line.
pub open spec fn json_list_text(items: Seq<Seq<char>>) -> Seq<char> {
    "[\n"@ + seq_join(items, ",\n"@) + "\n]\n"@
}

/// The HTML definition list of already written items.
pub open spec fn html_list_text(items: Seq<Seq<char>>) -> Seq<char> {
    "<dl>\n"@ + seq_join(items, "\n"@) + "\n</dl>\n"@
}

/// The JSON reply to a query: the array of the JSON objects of its samples.
pub open spec fn samples_json(samples: Seq<Sample>) -> Seq<char> {
    json_list_text(samples.map_values(|s: Sample| sample_json(s)))
}

/// Writes the JSON array of already written items.
pub fn json_list(items: &Vec<String>) -> (t: String)
    ensures
        t@ == json_list_text(strings_view(items@)),
{
    let mut t = owned("[\n");
    let body = join_with(items, ",\n");
    push_str(&mut t, body.as_str());
    push_str(&mut t, "\n]\n");
    t
}

/// Writes the HTML definition list of already written items.
pub fn html_list(items: &Vec<String>) -> (t: String)
    ensures
        t@ == html_list_text(strings_view(items@)),
{
    let mut t = owned("<dl>\n");
    let body = join_with(items, "\n");
    push_str(&mut t, body.as_str());
    push_str(&mut t, "\n</dl>\n");
    t
}

/// Writes the JSON reply to a query from the samples it received, in order.
pub fn to_json(samples: &Vec<Sample>) -> (t: String)
    ensures
        t@ == samples_json(samples@),
{
    let mut items: Vec<String> = Vec::new();
    let mut i: usize = 0;
    while i < samples.len()
        invariant
            i <= samples.len(),
            strings_view(items@) == samples@.take(i as int).map_values(|s: Sample| sample_json(s)),
        decreases samples.len() - i,
    {
        let item = sample_to_json(&samples[i]);
        let ghost old_items = strings_view(items@);
        let ghost iv = item@;
        items.push(item);
        assert(strings_view(items@) =~= old_items.push(iv));
        assert(samples@.take(i + 1) =~= samples@.take(i as int).push(samples@[i as int]));
        assert(strings_view(items@) =~= samples@.take(i + 1).map_values(|s: Sample| sample_json(s)));
        i = i + 1;
    }
    assert(samples@.take(samples.len() as int) =~= samples@);
    json_list(&items)
}

/// The HTML entry of a sample whose payload reads as `text`.
pub open spec fn sample_html_text(key: Seq<char>, text: Seq<char>) -> Seq<char> {
    "<dt>"@ + key + "</dt>\n<dd>"@ + text + "</dd>\n"@
}

/// The HTML entry of a sample: its key expression and its payload read as UTF-8, invalid
/// sequences replaced.
pub open spec fn sample_html(s: Sample) -> Seq<char> {
    sample_html_text(s.key_expr@, utf8_lossy_text(s.value.payload@))
}

/// The HTML reply to a query: the definition list of the entries of its samples.
pub open spec fn samples_html(samples: Seq<Sample>) -> Seq<char> {
    html_list_text(samples.map_values(|s: Sample| sample_html(s)))
}

/// Writes the HTML entry of a sample whose payload reads as `text`.
pub fn render_sample_html(key: &str, text: &str) -> (t: String)
    ensures
        t@ == sample_html_text(key@, text@),
{
    let mut t = owned("<dt>");
    push_str(&mut t, key);
    push_str(&mut t, "</dt>\n<dd>");
    push_str(&mut t, text);
    push_str(&mut t, "</dd>\n");
    t
}

/// Writes the HTML entry of a sample.
pub fn sample_to_html(s: &Sample) -> (t: String)
    ensures
        t@ == sample_html(*s),
{
    let text = utf8_lossy(s.value.payload.as_slice());
    render_sample_html(s.key_expr.as_str(), text.as_str())
}

/// Writes the HTML reply to a query from the samples it received, in order.
pub fn to_html(samples: &Vec<Sample>) -> (t: String)
    ensures
        t@ == samples_html(samples@),
{
    let mut items: Vec<String> = Vec::new();
    let mut i: usize = 0;
    while i < samples.len()
        invariant
            i <= samples.len(),
            strings_view(items@) == samples@.take(i as int).map_values(|s: Sample| sample_html(s)),
        decreases samples.len() - i,
    {
        let item = sample_to_html(&samples[i]);
        let ghost old_items = strings_view(items@);
        let ghost iv = item@;
        items.push(item);
        assert(strings_view(items@) =~= old_items.push(iv));
        assert(samples@.take(i + 1) =~= samples@.take(i as int).push(samples@[i as int]));
        assert(strings_view(items@) =~= samples@.take(i + 1).map_values(|s: Sample| sample_html(s)));
        i = i + 1;
    }
    assert(samples@.take(samples.len() as int) =~= samples@);
    html_list(&items)
}

} // verus!
