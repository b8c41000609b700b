//! The document tree: plain data mirroring the upstream parser's output,
//! together with its well-formedness conditions.
//!
//! The tree is read-only input to the classifier. Every node's range is
//! expected to be well-formed (start at or before end) and to follow the
//! parser's position conventions; [`file_wf`] and the per-node conditions
//! below state exactly the part of that invariant the classifier relies on.

use vstd::prelude::*;

use crate::token::{pos_le, range_wf, Pos, SourceInfo};

verus! {

/// A run of whitespace; only its range matters to classification.
pub struct Whitespace {
    pub source_info: SourceInfo,
}

/// A comment. Its reported range starts one column past the leading
/// marker character (`#`): the parser's convention, compensated for when
/// the comment's token is emitted.
pub struct Comment {
    pub source_info: SourceInfo,
}

/// The end of a line: an optional trailing comment before the newline.
pub struct LineTerminator {
    pub comment: Option<Comment>,
}

/// One element of a template: a literal fragment, or a `{{ name }}`
/// variable expression of which only the name's range matters.
pub enum TemplateElement {
    /// A literal string fragment. It carries no range of its own: the
    /// enclosing template's declared range stands for it.
    Literal,
    /// A variable expression; the field is the range of the name between
    /// the `{{` and `}}` delimiters, the delimiters excluded.
    Expression { variable: SourceInfo },
}

/// A string value that may interleave literal text and variable
/// expressions. All elements share the template's one declared range.
pub struct Template {
    pub source_info: SourceInfo,
    pub elements: Vec<TemplateElement>,
}

/// A key/value pair: a header line, or one entry of a section.
pub struct KeyValue {
    pub line_terminators: Vec<LineTerminator>,
    pub key: Template,
    pub value: Template,
    pub line_terminator0: LineTerminator,
}

/// One entry of a multipart form-data section. Not classified yet: it
/// contributes no tokens.
pub struct MultipartParam {}

/// A body payload (plain, templated or file-referenced bytes). Not
/// classified yet: it contributes no tokens.
pub struct Bytes {}

/// A bracket-delimited named block, like `[Asserts]`. Its declared range
/// includes the surrounding `[` and `]`.
pub struct Section {
    pub line_terminators: Vec<LineTerminator>,
    pub line_terminator0: LineTerminator,
    pub source_info: SourceInfo,
    pub value: SectionValue,
}

/// The contents of a section. Variants whose structure the classifier
/// does not understand contribute no tokens.
pub enum SectionValue {
    QueryParams(Vec<KeyValue>),
    FormParams(Vec<KeyValue>),
    MultipartFormData(Vec<MultipartParam>),
    BasicAuth(Option<KeyValue>),
    /// Any other section contents (asserts, captures, cookies, options).
    Unclassified,
}

/// A request body.
pub struct Body {
    pub line_terminators: Vec<LineTerminator>,
    pub value: Bytes,
    pub line_terminator0: LineTerminator,
}

/// An HTTP request: the method line, then headers, sections and body.
///
/// The method keyword carries no dedicated range; it is the tight span
/// between the whitespace before it (`space0`) and after it (`space1`).
pub struct Request {
    pub line_terminators: Vec<LineTerminator>,
    pub space0: Whitespace,
    pub space1: Whitespace,
    pub url: Template,
    pub line_terminator0: LineTerminator,
    pub headers: Vec<KeyValue>,
    pub sections: Vec<Section>,
    pub body: Option<Body>,
}

/// An expected HTTP response. Not classified yet: it contributes no
/// tokens.
pub struct Response {}

/// One entry: a request and an optional expected response.
pub struct Entry {
    pub request: Request,
    pub response: Option<Response>,
}

/// A whole document: its entries, then the trailing blank or comment
/// lines after the last entry.
pub struct HurlFile {
    pub entries: Vec<Entry>,
    pub line_terminators: Vec<LineTerminator>,
}

/// The comment's range is well-formed, and its reported start column is
/// one past the marker character, so at least 2.
pub open spec fn comment_wf(c: Comment) -> bool {
    &&& range_wf(c.source_info)
    &&& 2 <= c.source_info.start.column
}

pub open spec fn line_terminator_wf(lt: LineTerminator) -> bool {
    match lt.comment {
        Some(c) => comment_wf(c),
        None => true,
    }
}

pub open spec fn line_terminators_wf(s: Seq<LineTerminator>) -> bool {
    forall|i: int| 0 <= i < s.len() ==> line_terminator_wf(#[trigger] s[i])
}

pub open spec fn template_element_wf(e: TemplateElement) -> bool {
    match e {
        TemplateElement::Literal => true,
        TemplateElement::Expression { variable } => range_wf(variable),
    }
}

pub open spec fn template_wf(t: Template) -> bool {
    &&& range_wf(t.source_info)
    &&& forall|i: int| 0 <= i < t.elements@.len() ==> template_element_wf(#[trigger] t.elements@[i])
}

pub open spec fn key_value_wf(kv: KeyValue) -> bool {
    &&& line_terminators_wf(kv.line_terminators@)
    &&& template_wf(kv.key)
    &&& template_wf(kv.value)
    &&& line_terminator_wf(kv.line_terminator0)
}

pub open spec fn key_values_wf(s: Seq<KeyValue>) -> bool {
    forall|i: int| 0 <= i < s.len() ==> key_value_wf(#[trigger] s[i])
}

/// A section's declared range is well-formed and wide enough to hold the
/// `[` and `]` delimiters: shrinking it by one column on each side
/// leaves a well-formed range.
pub open spec fn section_info_wf(r: SourceInfo) -> bool {
    &&& range_wf(r)
    &&& r.start.column < usize::MAX
    &&& 2 <= r.end.column
    &&& pos_le(
        Pos { line: r.start.line, column: (r.start.column + 1) as usize },
        Pos { line: r.end.line, column: (r.end.column - 1) as usize },
    )
}

pub open spec fn section_value_wf(v: SectionValue) -> bool {
    match v {
        SectionValue::QueryParams(kvs) => key_values_wf(kvs@),
        SectionValue::FormParams(kvs) => key_values_wf(kvs@),
        SectionValue::MultipartFormData(_) => true,
        SectionValue::BasicAuth(okv) => match okv {
            Some(kv) => key_value_wf(kv),
            None => true,
        },
        SectionValue::Unclassified => true,
    }
}

pub open spec fn section_wf(s: Section) -> bool {
    &&& line_terminators_wf(s.line_terminators@)
    &&& line_terminator_wf(s.line_terminator0)
    &&& section_info_wf(s.source_info)
    &&& section_value_wf(s.value)
}

pub open spec fn sections_wf(s: Seq<Section>) -> bool {
    forall|i: int| 0 <= i < s.len() ==> section_wf(#[trigger] s[i])
}

pub open spec fn body_wf(b: Body) -> bool {
    &&& line_terminators_wf(b.line_terminators@)
    &&& line_terminator_wf(b.line_terminator0)
}

/// The request's parts are well-formed; the method keyword's span — from
/// the end of `space0` to the start of `space1` — is a well-formed range.
pub open spec fn request_wf(r: Request) -> bool {
    &&& line_terminators_wf(r.line_terminators@)
    &&& range_wf(r.space0.source_info)
    &&& range_wf(r.space1.source_info)
    &&& pos_le(r.space0.source_info.end, r.space1.source_info.start)
    &&& template_wf(r.url)
    &&& line_terminator_wf(r.line_terminator0)
    &&& key_values_wf(r.headers@)
    &&& sections_wf(r.sections@)
    &&& match r.body {
        Some(b) => body_wf(b),
        None => true,
    }
}

pub open spec fn entry_wf(e: Entry) -> bool {
    request_wf(e.request)
}

pub open spec fn entries_wf(s: Seq<Entry>) -> bool {
    forall|i: int| 0 <= i < s.len() ==> entry_wf(#[trigger] s[i])
}

pub open spec fn file_wf(f: HurlFile) -> bool {
    &&& entries_wf(f.entries@)
    &&& line_terminators_wf(f.line_terminators@)
}

} // verus!
