//! Ordering guarantees of the token stream.
//!
//! The downstream protocol encodes each token as a delta from the
//! previous one, which is only well-defined for a stream that is sorted
//! by position and free of overlaps. This module states what "in source
//! order" means for a document tree — every structural child's tokens
//! follow all tokens emitted before it — and proves that the classifier
//! then produces a sorted, non-overlapping stream.

use vstd::prelude::*;

use crate::ast::{
    body_wf, file_wf, key_value_wf, line_terminator_wf, line_terminators_wf, request_wf,
    section_wf, template_element_wf, template_wf, Body, Entry, HurlFile, KeyValue,
    LineTerminator, Request, Section, SectionValue, Template, TemplateElement,
};
use crate::scanner::{
    body_tokens, comment_token, element_token, entries_tokens, entry_tokens,
    file_tokens, key_value_tokens, key_values_tokens, line_terminator_tokens,
    line_terminators_tokens, method_token, request_tokens, section_name_token, section_tokens,
    section_value_tokens, sections_tokens, template_elements_tokens, template_tokens,
};
use crate::token::{pos_le, range_wf, Token};

verus! {

/// `a` comes no later than `b` in the output order: `a` starts at or
/// before `b`, and on equal starts `a` ends at or before `b`.
pub open spec fn token_le(a: Token, b: Token) -> bool {
    &&& pos_le(a.source_info.start, b.source_info.start)
    &&& (a.source_info.start == b.source_info.start ==> pos_le(a.source_info.end, b.source_info.end))
}

/// Every token of the stream carries a well-formed range.
pub open spec fn tokens_wf(ts: Seq<Token>) -> bool {
    forall|i: int| 0 <= i < ts.len() ==> range_wf((#[trigger] ts[i]).source_info)
}

/// No two tokens of the stream overlap: each earlier token ends at or
/// before each later token starts.
pub open spec fn tokens_disjoint(ts: Seq<Token>) -> bool {
    forall|i: int, j: int|
        0 <= i < j < ts.len() ==> pos_le(
            (#[trigger] ts[i]).source_info.end,
            (#[trigger] ts[j]).source_info.start,
        )
}

/// The stream is sorted: start positions are non-decreasing, with ties
/// broken by end position.
pub open spec fn tokens_sorted(ts: Seq<Token>) -> bool {
    forall|i: int, j: int| 0 <= i <= j < ts.len() ==> token_le(#[trigger] ts[i], #[trigger] ts[j])
}

/// A well-formed piece of output: well-formed ranges, in order, no
/// overlaps.
pub open spec fn stream_wf(ts: Seq<Token>) -> bool {
    tokens_wf(ts) && tokens_disjoint(ts)
}

/// Every token of `a` ends at or before every token of `b` starts.
pub open spec fn seq_before(a: Seq<Token>, b: Seq<Token>) -> bool {
    forall|i: int, j: int|
        0 <= i < a.len() && 0 <= j < b.len() ==> pos_le(
            (#[trigger] a[i]).source_info.end,
            (#[trigger] b[j]).source_info.start,
        )
}

proof fn lemma_stream_concat(a: Seq<Token>, b: Seq<Token>)
    requires
        stream_wf(a),
        stream_wf(b),
        seq_before(a, b),
    ensures
        stream_wf(a + b),
{
    let c = a + b;
    assert forall|i: int| 0 <= i < c.len() implies range_wf((#[trigger] c[i]).source_info) by {
        if i < a.len() {
            assert(range_wf(a[i].source_info));
        } else {
            assert(range_wf(b[i - a.len()].source_info));
        }
    }
    assert forall|i: int, j: int| 0 <= i < j < c.len() implies pos_le(
        (#[trigger] c[i]).source_info.end,
        (#[trigger] c[j]).source_info.start,
    ) by {
        if j < a.len() {
            assert(pos_le(a[i].source_info.end, a[j].source_info.start));
        } else if i >= a.len() {
            assert(pos_le(b[i - a.len()].source_info.end, b[j - a.len()].source_info.start));
        } else {
            assert(pos_le(a[i].source_info.end, b[j - a.len()].source_info.start));
        }
    }
}

proof fn lemma_before_concat_left(a: Seq<Token>, b: Seq<Token>, c: Seq<Token>)
    requires
        seq_before(a, c),
        seq_before(b, c),
    ensures
        seq_before(a + b, c),
{
    assert forall|i: int, j: int| 0 <= i < (a + b).len() && 0 <= j < c.len() implies pos_le(
        (#[trigger] (a + b)[i]).source_info.end,
        (#[trigger] c[j]).source_info.start,
    ) by {
        if i < a.len() {
            assert(pos_le(a[i].source_info.end, c[j].source_info.start));
        } else {
            assert(pos_le(b[i - a.len()].source_info.end, c[j].source_info.start));
        }
    }
}

/// Concatenation of sequences is associative.
proof fn lemma_add_assoc(a: Seq<Token>, b: Seq<Token>, c: Seq<Token>)
    ensures
        (a + b) + c == a + (b + c),
{
    assert((a + b) + c =~= a + (b + c));
}

proof fn lemma_line_terminator_stream(lt: LineTerminator)
    requires
        line_terminator_wf(lt),
    ensures
        stream_wf(line_terminator_tokens(lt)),
{
    match lt.comment {
        Some(c) => {
            assert(range_wf(comment_token(c).source_info));
        }
        None => {}
    }
}

/// The line terminators of one list appear in source order: each one's
/// tokens follow all tokens of the ones before it.
pub open spec fn line_terminators_ordered(s: Seq<LineTerminator>) -> bool {
    &&& line_terminators_wf(s)
    &&& forall|i: int, j: int|
        0 <= i < j < s.len() ==> seq_before(
            line_terminator_tokens(#[trigger] s[i]),
            line_terminator_tokens(#[trigger] s[j]),
        )
}

proof fn lemma_line_terminators_before(s: Seq<LineTerminator>, b: Seq<Token>)
    requires
        forall|k: int| 0 <= k < s.len() ==> seq_before(line_terminator_tokens(#[trigger] s[k]), b),
    ensures
        seq_before(line_terminators_tokens(s), b),
    decreases s.len(),
{
    if s.len() > 0 {
        assert forall|k: int| 0 <= k < s.drop_last().len() implies seq_before(
            line_terminator_tokens(#[trigger] s.drop_last()[k]),
            b,
        ) by {
            assert(s.drop_last()[k] == s[k]);
        }
        lemma_line_terminators_before(s.drop_last(), b);
        lemma_before_concat_left(
            line_terminators_tokens(s.drop_last()),
            line_terminator_tokens(s.last()),
            b,
        );
    }
}

proof fn lemma_line_terminators_stream(s: Seq<LineTerminator>)
    requires
        line_terminators_ordered(s),
    ensures
        stream_wf(line_terminators_tokens(s)),
    decreases s.len(),
{
    if s.len() > 0 {
        assert forall|k: int| 0 <= k < s.drop_last().len() implies line_terminator_wf(
            #[trigger] s.drop_last()[k],
        ) by {
            assert(s.drop_last()[k] == s[k]);
        }
        assert forall|i: int, j: int| 0 <= i < j < s.drop_last().len() implies seq_before(
            line_terminator_tokens(#[trigger] s.drop_last()[i]),
            line_terminator_tokens(#[trigger] s.drop_last()[j]),
        ) by {
            assert(s.drop_last()[i] == s[i]);
            assert(s.drop_last()[j] == s[j]);
        }
        lemma_line_terminators_stream(s.drop_last());
        lemma_line_terminator_stream(s.last());
        assert forall|k: int| 0 <= k < s.drop_last().len() implies seq_before(
            line_terminator_tokens(#[trigger] s.drop_last()[k]),
            line_terminator_tokens(s.last()),
        ) by {
            assert(s.drop_last()[k] == s[k]);
            assert(seq_before(line_terminator_tokens(s[k]), line_terminator_tokens(s.last())));
        }
        lemma_line_terminators_before(s.drop_last(), line_terminator_tokens(s.last()));
        lemma_stream_concat(
            line_terminators_tokens(s.drop_last()),
            line_terminator_tokens(s.last()),
        );
    }
}

/// The template's tokens appear in source order. Because every literal
/// fragment's token spans the template's whole declared range, a
/// template with two or more elements keeps its tokens in order only
/// when all its elements are variable expressions whose name ranges
/// appear in source order.
pub open spec fn template_ordered(t: Template) -> bool {
    &&& template_wf(t)
    &&& (t.elements@.len() <= 1 || {
        &&& forall|k: int| 0 <= k < t.elements@.len() ==> (#[trigger] t.elements@[k]) is Expression
        &&& forall|i: int, j: int|
            0 <= i < j < t.elements@.len() ==> pos_le(
                element_token(t, #[trigger] t.elements@[i]).source_info.end,
                element_token(t, #[trigger] t.elements@[j]).source_info.start,
            )
    })
}

proof fn lemma_template_elements_index(t: Template, s: Seq<TemplateElement>)
    ensures
        template_elements_tokens(t, s).len() == s.len(),
        forall|k: int|
            0 <= k < s.len() ==> (#[trigger] template_elements_tokens(t, s)[k]) == element_token(
                t,
                s[k],
            ),
    decreases s.len(),
{
    if s.len() > 0 {
        lemma_template_elements_index(t, s.drop_last());
    }
}

proof fn lemma_template_stream(t: Template)
    requires
        template_ordered(t),
    ensures
        stream_wf(template_tokens(t)),
{
    lemma_template_elements_index(t, t.elements@);
    let ts = template_tokens(t);
    assert forall|i: int| 0 <= i < ts.len() implies range_wf((#[trigger] ts[i]).source_info) by {
        assert(ts[i] == element_token(t, t.elements@[i]));
        assert(template_element_wf(t.elements@[i]));
    }
    assert forall|i: int, j: int| 0 <= i < j < ts.len() implies pos_le(
        (#[trigger] ts[i]).source_info.end,
        (#[trigger] ts[j]).source_info.start,
    ) by {
        assert(ts[i] == element_token(t, t.elements@[i]));
        assert(ts[j] == element_token(t, t.elements@[j]));
    }
}

/// The parts of a key/value pair appear in source order: leading
/// terminators, then the key, the value, and the trailing terminator,
/// each part's tokens after all tokens before it.
pub open spec fn key_value_ordered(kv: KeyValue) -> bool {
    let g1 = line_terminators_tokens(kv.line_terminators@);
    let g2 = template_tokens(kv.key);
    let g3 = template_tokens(kv.value);
    let g4 = line_terminator_tokens(kv.line_terminator0);
    &&& key_value_wf(kv)
    &&& line_terminators_ordered(kv.line_terminators@)
    &&& template_ordered(kv.key)
    &&& template_ordered(kv.value)
    &&& seq_before(g1, g2)
    &&& seq_before(g1 + g2, g3)
    &&& seq_before(g1 + g2 + g3, g4)
}

proof fn lemma_key_value_stream(kv: KeyValue)
    requires
        key_value_ordered(kv),
    ensures
        stream_wf(key_value_tokens(kv)),
{
    let g1 = line_terminators_tokens(kv.line_terminators@);
    let g2 = template_tokens(kv.key);
    let g3 = template_tokens(kv.value);
    let g4 = line_terminator_tokens(kv.line_terminator0);
    lemma_line_terminators_stream(kv.line_terminators@);
    lemma_template_stream(kv.key);
    lemma_template_stream(kv.value);
    lemma_line_terminator_stream(kv.line_terminator0);
    lemma_stream_concat(g1, g2);
    lemma_stream_concat(g1 + g2, g3);
    lemma_stream_concat(g1 + g2 + g3, g4);
    lemma_add_assoc(g1 + g2, g3, g4);
    lemma_add_assoc(g1, g2, g3 + g4);
    assert(key_value_tokens(kv) == g1 + g2 + g3 + g4);
}

/// The key/value pairs of one list appear in source order.
pub open spec fn key_values_ordered(s: Seq<KeyValue>) -> bool {
    &&& forall|k: int| 0 <= k < s.len() ==> key_value_ordered(#[trigger] s[k])
    &&& forall|i: int, j: int|
        0 <= i < j < s.len() ==> seq_before(
            key_value_tokens(#[trigger] s[i]),
            key_value_tokens(#[trigger] s[j]),
        )
}

proof fn lemma_key_values_before(s: Seq<KeyValue>, b: Seq<Token>)
    requires
        forall|k: int| 0 <= k < s.len() ==> seq_before(key_value_tokens(#[trigger] s[k]), b),
    ensures
        seq_before(key_values_tokens(s), b),
    decreases s.len(),
{
    if s.len() > 0 {
        assert forall|k: int| 0 <= k < s.drop_last().len() implies seq_before(
            key_value_tokens(#[trigger] s.drop_last()[k]),
            b,
        ) by {
            assert(s.drop_last()[k] == s[k]);
        }
        lemma_key_values_before(s.drop_last(), b);
        lemma_before_concat_left(
            key_values_tokens(s.drop_last()),
            key_value_tokens(s.last()),
            b,
        );
    }
}

proof fn lemma_key_values_stream(s: Seq<KeyValue>)
    requires
        key_values_ordered(s),
    ensures
        stream_wf(key_values_tokens(s)),
    decreases s.len(),
{
    if s.len() > 0 {
        assert forall|k: int| 0 <= k < s.drop_last().len() implies key_value_ordered(
            #[trigger] s.drop_last()[k],
        ) by {
            assert(s.drop_last()[k] == s[k]);
        }
        assert forall|i: int, j: int| 0 <= i < j < s.drop_last().len() implies seq_before(
            key_value_tokens(#[trigger] s.drop_last()[i]),
            key_value_tokens(#[trigger] s.drop_last()[j]),
        ) by {
            assert(s.drop_last()[i] == s[i]);
            assert(s.drop_last()[j] == s[j]);
        }
        lemma_key_values_stream(s.drop_last());
        lemma_key_value_stream(s.last());
        assert forall|k: int| 0 <= k < s.drop_last().len() implies seq_before(
            key_value_tokens(#[trigger] s.drop_last()[k]),
            key_value_tokens(s.last()),
        ) by {
            assert(s.drop_last()[k] == s[k]);
            assert(seq_before(key_value_tokens(s[k]), key_value_tokens(s.last())));
        }
        lemma_key_values_before(s.drop_last(), key_value_tokens(s.last()));
        lemma_stream_concat(key_values_tokens(s.drop_last()), key_value_tokens(s.last()));
    }
}

/// The contents of a section appear in source order.
pub open spec fn section_value_ordered(v: SectionValue) -> bool {
    match v {
        SectionValue::QueryParams(kvs) => key_values_ordered(kvs@),
        SectionValue::FormParams(kvs) => key_values_ordered(kvs@),
        SectionValue::MultipartFormData(_) => true,
        SectionValue::BasicAuth(okv) => match okv {
            Some(kv) => key_value_ordered(kv),
            None => true,
        },
        SectionValue::Unclassified => true,
    }
}

proof fn lemma_section_value_stream(v: SectionValue)
    requires
        section_value_ordered(v),
    ensures
        stream_wf(section_value_tokens(v)),
{
    match v {
        SectionValue::QueryParams(kvs) => {
            lemma_key_values_stream(kvs@);
        }
        SectionValue::FormParams(kvs) => {
            lemma_key_values_stream(kvs@);
        }
        SectionValue::MultipartFormData(_) => {}
        SectionValue::BasicAuth(okv) => match okv {
            Some(kv) => {
                lemma_key_value_stream(kv);
            }
            None => {}
        },
        SectionValue::Unclassified => {}
    }
}

/// The parts of a section appear in source order: the leading
/// terminators and the previous element's trailing terminator, then the
/// trimmed section name, then the contents.
pub open spec fn section_ordered(s: Section) -> bool {
    let g1 = line_terminators_tokens(s.line_terminators@);
    let g2 = line_terminator_tokens(s.line_terminator0);
    let g3 = seq![section_name_token(s)];
    let g4 = section_value_tokens(s.value);
    &&& section_wf(s)
    &&& line_terminators_ordered(s.line_terminators@)
    &&& section_value_ordered(s.value)
    &&& seq_before(g1, g2)
    &&& seq_before(g1 + g2, g3)
    &&& seq_before(g1 + g2 + g3, g4)
}

proof fn lemma_section_stream(s: Section)
    requires
        section_ordered(s),
    ensures
        stream_wf(section_tokens(s)),
{
    let g1 = line_terminators_tokens(s.line_terminators@);
    let g2 = line_terminator_tokens(s.line_terminator0);
    let g3 = seq![section_name_token(s)];
    let g4 = section_value_tokens(s.value);
    lemma_line_terminators_stream(s.line_terminators@);
    lemma_line_terminator_stream(s.line_terminator0);
    assert(range_wf(section_name_token(s).source_info));
    assert(stream_wf(g3));
    lemma_section_value_stream(s.value);
    lemma_stream_concat(g1, g2);
    lemma_stream_concat(g1 + g2, g3);
    lemma_stream_concat(g1 + g2 + g3, g4);
    lemma_add_assoc(g1 + g2, g3, g4);
    lemma_add_assoc(g1, g2, g3 + g4);
    assert(section_tokens(s) == g1 + g2 + g3 + g4);
}

/// The sections of one list appear in source order.
pub open spec fn sections_ordered(s: Seq<Section>) -> bool {
    &&& forall|k: int| 0 <= k < s.len() ==> section_ordered(#[trigger] s[k])
    &&& forall|i: int, j: int|
        0 <= i < j < s.len() ==> seq_before(
            section_tokens(#[trigger] s[i]),
            section_tokens(#[trigger] s[j]),
        )
}

proof fn lemma_sections_before(s: Seq<Section>, b: Seq<Token>)
    requires
        forall|k: int| 0 <= k < s.len() ==> seq_before(section_tokens(#[trigger] s[k]), b),
    ensures
        seq_before(sections_tokens(s), b),
    decreases s.len(),
{
    if s.len() > 0 {
        assert forall|k: int| 0 <= k < s.drop_last().len() implies seq_before(
            section_tokens(#[trigger] s.drop_last()[k]),
            b,
        ) by {
            assert(s.drop_last()[k] == s[k]);
        }
        lemma_sections_before(s.drop_last(), b);
        lemma_before_concat_left(sections_tokens(s.drop_last()), section_tokens(s.last()), b);
    }
}

proof fn lemma_sections_stream(s: Seq<Section>)
    requires
        sections_ordered(s),
    ensures
        stream_wf(sections_tokens(s)),
    decreases s.len(),
{
    if s.len() > 0 {
        assert forall|k: int| 0 <= k < s.drop_last().len() implies section_ordered(
            #[trigger] s.drop_last()[k],
        ) by {
            assert(s.drop_last()[k] == s[k]);
        }
        assert forall|i: int, j: int| 0 <= i < j < s.drop_last().len() implies seq_before(
            section_tokens(#[trigger] s.drop_last()[i]),
            section_tokens(#[trigger] s.drop_last()[j]),
        ) by {
            assert(s.drop_last()[i] == s[i]);
            assert(s.drop_last()[j] == s[j]);
        }
        lemma_sections_stream(s.drop_last());
        lemma_section_stream(s.last());
        assert forall|k: int| 0 <= k < s.drop_last().len() implies seq_before(
            section_tokens(#[trigger] s.drop_last()[k]),
            section_tokens(s.last()),
        ) by {
            assert(s.drop_last()[k] == s[k]);
            assert(seq_before(section_tokens(s[k]), section_tokens(s.last())));
        }
        lemma_sections_before(s.drop_last(), section_tokens(s.last()));
        lemma_stream_concat(sections_tokens(s.drop_last()), section_tokens(s.last()));
    }
}

/// The parts of a body appear in source order.
pub open spec fn body_ordered(b: Body) -> bool {
    &&& body_wf(b)
    &&& line_terminators_ordered(b.line_terminators@)
    &&& seq_before(
        line_terminators_tokens(b.line_terminators@),
        line_terminator_tokens(b.line_terminator0),
    )
}

proof fn lemma_body_stream(b: Body)
    requires
        body_ordered(b),
    ensures
        stream_wf(body_tokens(b)),
{
    let g1 = line_terminators_tokens(b.line_terminators@);
    let g2 = line_terminator_tokens(b.line_terminator0);
    lemma_line_terminators_stream(b.line_terminators@);
    lemma_line_terminator_stream(b.line_terminator0);
    lemma_stream_concat(g1, g2);
    assert(body_tokens(b) =~= g1 + g2);
}

/// The parts of a request appear in source order: leading terminators,
/// the method keyword, the URL, the trailing terminator, the headers,
/// the sections and the body, each part's tokens after all tokens
/// before it.
pub open spec fn request_ordered(r: Request) -> bool {
    let g1 = line_terminators_tokens(r.line_terminators@);
    let g2 = seq![method_token(r)];
    let g3 = template_tokens(r.url);
    let g4 = line_terminator_tokens(r.line_terminator0);
    let g5 = key_values_tokens(r.headers@);
    let g6 = sections_tokens(r.sections@);
    let g7 = match r.body {
        Some(b) => body_tokens(b),
        None => Seq::<Token>::empty(),
    };
    &&& request_wf(r)
    &&& line_terminators_ordered(r.line_terminators@)
    &&& template_ordered(r.url)
    &&& key_values_ordered(r.headers@)
    &&& sections_ordered(r.sections@)
    &&& (match r.body {
        Some(b) => body_ordered(b),
        None => true,
    })
    &&& seq_before(g1, g2)
    &&& seq_before(g1 + g2, g3)
    &&& seq_before(g1 + g2 + g3, g4)
    &&& seq_before(g1 + g2 + g3 + g4, g5)
    &&& seq_before(g1 + g2 + g3 + g4 + g5, g6)
    &&& seq_before(g1 + g2 + g3 + g4 + g5 + g6, g7)
}

proof fn lemma_request_stream(r: Request)
    requires
        request_ordered(r),
    ensures
        stream_wf(request_tokens(r)),
{
    let g1 = line_terminators_tokens(r.line_terminators@);
    let g2 = seq![method_token(r)];
    let g3 = template_tokens(r.url);
    let g4 = line_terminator_tokens(r.line_terminator0);
    let g5 = key_values_tokens(r.headers@);
    let g6 = sections_tokens(r.sections@);
    let g7 = match r.body {
        Some(b) => body_tokens(b),
        None => Seq::<Token>::empty(),
    };
    lemma_line_terminators_stream(r.line_terminators@);
    assert(range_wf(method_token(r).source_info));
    assert(stream_wf(g2));
    lemma_template_stream(r.url);
    lemma_line_terminator_stream(r.line_terminator0);
    lemma_key_values_stream(r.headers@);
    lemma_sections_stream(r.sections@);
    match r.body {
        Some(b) => {
            lemma_body_stream(b);
        }
        None => {}
    }
    lemma_stream_concat(g1, g2);
    lemma_stream_concat(g1 + g2, g3);
    lemma_stream_concat(g1 + g2 + g3, g4);
    lemma_stream_concat(g1 + g2 + g3 + g4, g5);
    lemma_stream_concat(g1 + g2 + g3 + g4 + g5, g6);
    lemma_stream_concat(g1 + g2 + g3 + g4 + g5 + g6, g7);
    lemma_add_assoc(g1 + g2 + g3 + g4 + g5, g6, g7);
    lemma_add_assoc(g1 + g2 + g3 + g4, g5, g6 + g7);
    lemma_add_assoc(g1 + g2 + g3, g4, g5 + (g6 + g7));
    lemma_add_assoc(g1 + g2, g3, g4 + (g5 + (g6 + g7)));
    lemma_add_assoc(g1, g2, g3 + (g4 + (g5 + (g6 + g7))));
    assert(request_tokens(r) == g1 + g2 + g3 + g4 + g5 + g6 + g7);
}

/// The parts of an entry appear in source order. A response contributes
/// no tokens, so only the request's order matters.
pub open spec fn entry_ordered(e: Entry) -> bool {
    request_ordered(e.request)
}

proof fn lemma_entry_stream(e: Entry)
    requires
        entry_ordered(e),
    ensures
        stream_wf(entry_tokens(e)),
{
    lemma_request_stream(e.request);
    assert(entry_tokens(e) =~= request_tokens(e.request));
}

/// The entries of one list appear in source order.
pub open spec fn entries_ordered(s: Seq<Entry>) -> bool {
    &&& forall|k: int| 0 <= k < s.len() ==> entry_ordered(#[trigger] s[k])
    &&& forall|i: int, j: int|
        0 <= i < j < s.len() ==> seq_before(
            entry_tokens(#[trigger] s[i]),
            entry_tokens(#[trigger] s[j]),
        )
}

proof fn lemma_entries_before(s: Seq<Entry>, b: Seq<Token>)
    requires
        forall|k: int| 0 <= k < s.len() ==> seq_before(entry_tokens(#[trigger] s[k]), b),
    ensures
        seq_before(entries_tokens(s), b),
    decreases s.len(),
{
    if s.len() > 0 {
        assert forall|k: int| 0 <= k < s.drop_last().len() implies seq_before(
            entry_tokens(#[trigger] s.drop_last()[k]),
            b,
        ) by {
            assert(s.drop_last()[k] == s[k]);
        }
        lemma_entries_before(s.drop_last(), b);
        lemma_before_concat_left(entries_tokens(s.drop_last()), entry_tokens(s.last()), b);
    }
}

proof fn lemma_entries_stream(s: Seq<Entry>)
    requires
        entries_ordered(s),
    ensures
        stream_wf(entries_tokens(s)),
    decreases s.len(),
{
    if s.len() > 0 {
        assert forall|k: int| 0 <= k < s.drop_last().len() implies entry_ordered(
            #[trigger] s.drop_last()[k],
        ) by {
            assert(s.drop_last()[k] == s[k]);
        }
        assert forall|i: int, j: int| 0 <= i < j < s.drop_last().len() implies seq_before(
            entry_tokens(#[trigger] s.drop_last()[i]),
            entry_tokens(#[trigger] s.drop_last()[j]),
        ) by {
            assert(s.drop_last()[i] == s[i]);
            assert(s.drop_last()[j] == s[j]);
        }
        lemma_entries_stream(s.drop_last());
        lemma_entry_stream(s.last());
        assert forall|k: int| 0 <= k < s.drop_last().len() implies seq_before(
            entry_tokens(#[trigger] s.drop_last()[k]),
            entry_tokens(s.last()),
        ) by {
            assert(s.drop_last()[k] == s[k]);
            assert(seq_before(entry_tokens(s[k]), entry_tokens(s.last())));
        }
        lemma_entries_before(s.drop_last(), entry_tokens(s.last()));
        lemma_stream_concat(entries_tokens(s.drop_last()), entry_tokens(s.last()));
    }
}

/// A valid document: every node is well-formed and every structural
/// child's tokens follow all tokens emitted before it.
pub open spec fn file_ordered(f: HurlFile) -> bool {
    &&& file_wf(f)
    &&& entries_ordered(f.entries@)
    &&& line_terminators_ordered(f.line_terminators@)
    &&& seq_before(entries_tokens(f.entries@), line_terminators_tokens(f.line_terminators@))
}

proof fn lemma_file_stream(f: HurlFile)
    requires
        file_ordered(f),
    ensures
        stream_wf(file_tokens(f)),
{
    lemma_entries_stream(f.entries@);
    lemma_line_terminators_stream(f.line_terminators@);
    lemma_stream_concat(
        entries_tokens(f.entries@),
        line_terminators_tokens(f.line_terminators@),
    );
}

/// Law: for a valid document the output token sequence is sorted by
/// start position, non-decreasing, with ties broken by end position.
pub proof fn lemma_file_tokens_sorted(f: HurlFile)
    requires
        file_ordered(f),
    ensures
        tokens_sorted(file_tokens(f)),
{
    lemma_file_stream(f);
    let ts = file_tokens(f);
    assert forall|i: int, j: int| 0 <= i <= j < ts.len() implies token_le(
        #[trigger] ts[i],
        #[trigger] ts[j],
    ) by {
        if i < j {
            assert(pos_le(ts[i].source_info.end, ts[j].source_info.start));
            assert(range_wf(ts[i].source_info));
            assert(range_wf(ts[j].source_info));
        }
    }
}

/// Law: for a valid document no two output tokens overlap: each earlier
/// token's range ends at or before each later token's range starts.
pub proof fn lemma_file_tokens_disjoint(f: HurlFile)
    requires
        file_ordered(f),
    ensures
        tokens_disjoint(file_tokens(f)),
{
    lemma_file_stream(f);
}

} // verus!
