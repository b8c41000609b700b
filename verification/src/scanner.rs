//! The classifier: one top-down traversal of the document tree that
//! appends classified source ranges to a shared accumulator.
//!
//! For every node kind a spec function below states exactly which tokens
//! the node contributes, and the `scan` method on the node proves that it
//! appends exactly that sequence. Node kinds with no classification rule
//! yet (responses, multipart entries, body payloads) contribute no
//! tokens rather than failing the traversal.

use vstd::prelude::*;

use crate::ast::{
    body_wf, entry_wf, file_wf, key_value_wf, line_terminator_wf, request_wf, section_value_wf,
    section_wf, template_wf, Body, Bytes, Comment, Entry, HurlFile, KeyValue, LineTerminator,
    MultipartParam, Request, Response, Section, SectionValue, Template, TemplateElement,
};
use crate::token::{Pos, SourceInfo, Token, TokenType};

verus! {

/// The token a comment contributes: its reported range with the start
/// column decremented by one, so that the token covers the leading `#`
/// marker that the reported range excludes.
pub open spec fn comment_token(c: Comment) -> Token {
    Token {
        token_type: TokenType::Comment,
        source_info: SourceInfo {
            start: Pos {
                line: c.source_info.start.line,
                column: (c.source_info.start.column - 1) as usize,
            },
            end: c.source_info.end,
        },
    }
}

/// A line terminator contributes its comment's token, if any.
pub open spec fn line_terminator_tokens(lt: LineTerminator) -> Seq<Token> {
    match lt.comment {
        Some(c) => seq![comment_token(c)],
        None => Seq::empty(),
    }
}

pub open spec fn line_terminators_tokens(s: Seq<LineTerminator>) -> Seq<Token>
    decreases s.len(),
{
    if s.len() == 0 {
        Seq::empty()
    } else {
        line_terminators_tokens(s.drop_last()) + line_terminator_tokens(s.last())
    }
}

/// The method keyword's token: the tight span between the whitespace
/// before the method name and the whitespace after it.
pub open spec fn method_token(r: Request) -> Token {
    Token {
        token_type: TokenType::Method,
        source_info: SourceInfo {
            start: r.space0.source_info.end,
            end: r.space1.source_info.start,
        },
    }
}

/// The token one template element contributes: a literal fragment is a
/// `String` token over the whole template's declared range; a variable
/// expression is a `Variable` token over the name's own range.
pub open spec fn element_token(t: Template, e: TemplateElement) -> Token {
    match e {
        TemplateElement::Literal => Token {
            token_type: TokenType::String,
            source_info: t.source_info,
        },
        TemplateElement::Expression { variable } => Token {
            token_type: TokenType::Variable,
            source_info: variable,
        },
    }
}

pub open spec fn template_elements_tokens(t: Template, s: Seq<TemplateElement>) -> Seq<Token>
    decreases s.len(),
{
    if s.len() == 0 {
        Seq::empty()
    } else {
        template_elements_tokens(t, s.drop_last()) + seq![element_token(t, s.last())]
    }
}

pub open spec fn template_tokens(t: Template) -> Seq<Token> {
    template_elements_tokens(t, t.elements@)
}

/// A key/value pair: leading terminators, then the key and the value,
/// each classified as a template, then the trailing terminator.
pub open spec fn key_value_tokens(kv: KeyValue) -> Seq<Token> {
    line_terminators_tokens(kv.line_terminators@)
        + (template_tokens(kv.key)
            + (template_tokens(kv.value) + line_terminator_tokens(kv.line_terminator0)))
}

pub open spec fn key_values_tokens(s: Seq<KeyValue>) -> Seq<Token>
    decreases s.len(),
{
    if s.len() == 0 {
        Seq::empty()
    } else {
        key_values_tokens(s.drop_last()) + key_value_tokens(s.last())
    }
}

/// The section name's token: the declared range shrunk by one column on
/// each side, trimming the `[` and `]` delimiters it includes.
pub open spec fn section_name_token(s: Section) -> Token {
    Token {
        token_type: TokenType::SectionName,
        source_info: SourceInfo {
            start: Pos {
                line: s.source_info.start.line,
                column: (s.source_info.start.column + 1) as usize,
            },
            end: Pos {
                line: s.source_info.end.line,
                column: (s.source_info.end.column - 1) as usize,
            },
        },
    }
}

/// One multipart entry contributes no tokens: no rule classifies it yet.
pub open spec fn multipart_param_tokens(p: MultipartParam) -> Seq<Token> {
    Seq::empty()
}

/// Section contents: key/value sections classify their pairs in order;
/// variants without a rule contribute no tokens.
pub open spec fn section_value_tokens(v: SectionValue) -> Seq<Token> {
    match v {
        SectionValue::QueryParams(kvs) => key_values_tokens(kvs@),
        SectionValue::FormParams(kvs) => key_values_tokens(kvs@),
        SectionValue::MultipartFormData(_) => Seq::empty(),
        SectionValue::BasicAuth(okv) => match okv {
            Some(kv) => key_value_tokens(kv),
            None => Seq::empty(),
        },
        SectionValue::Unclassified => Seq::empty(),
    }
}

/// A section: the leading terminators and the trailing terminator of the
/// previous structural element, then the section name, then the
/// contents.
pub open spec fn section_tokens(s: Section) -> Seq<Token> {
    line_terminators_tokens(s.line_terminators@)
        + (line_terminator_tokens(s.line_terminator0)
            + (seq![section_name_token(s)] + section_value_tokens(s.value)))
}

pub open spec fn sections_tokens(s: Seq<Section>) -> Seq<Token>
    decreases s.len(),
{
    if s.len() == 0 {
        Seq::empty()
    } else {
        sections_tokens(s.drop_last()) + section_tokens(s.last())
    }
}

/// A body payload contributes no tokens: no rule classifies it yet.
pub open spec fn bytes_tokens(b: Bytes) -> Seq<Token> {
    Seq::empty()
}

/// A body: leading terminators, the (unclassified) payload, then the
/// trailing terminator.
pub open spec fn body_tokens(b: Body) -> Seq<Token> {
    line_terminators_tokens(b.line_terminators@)
        + (bytes_tokens(b.value) + line_terminator_tokens(b.line_terminator0))
}

/// A response contributes no tokens: no rule classifies it yet.
pub open spec fn response_tokens(r: Response) -> Seq<Token> {
    Seq::empty()
}

/// A request: leading terminators, the method keyword, the URL template,
/// the trailing terminator, then headers, sections and body in order.
pub open spec fn request_tokens(r: Request) -> Seq<Token> {
    line_terminators_tokens(r.line_terminators@)
        + (seq![method_token(r)]
            + (template_tokens(r.url)
                + (line_terminator_tokens(r.line_terminator0)
                    + (key_values_tokens(r.headers@)
                        + (sections_tokens(r.sections@)
                            + match r.body {
                                Some(b) => body_tokens(b),
                                None => Seq::empty(),
                            })))))
}

/// An entry: its request, then its response if present.
pub open spec fn entry_tokens(e: Entry) -> Seq<Token> {
    request_tokens(e.request)
        + match e.response {
            Some(resp) => response_tokens(resp),
            None => Seq::empty(),
        }
}

pub open spec fn entries_tokens(s: Seq<Entry>) -> Seq<Token>
    decreases s.len(),
{
    if s.len() == 0 {
        Seq::empty()
    } else {
        entries_tokens(s.drop_last()) + entry_tokens(s.last())
    }
}

/// A whole document: each entry in order, then the trailing terminators.
pub open spec fn file_tokens(f: HurlFile) -> Seq<Token> {
    entries_tokens(f.entries@) + line_terminators_tokens(f.line_terminators@)
}

/// Concatenation of sequences is associative.
proof fn lemma_add_assoc<A>(a: Seq<A>, b: Seq<A>, c: Seq<A>)
    ensures
        (a + b) + c == a + (b + c),
{
    assert((a + b) + c =~= a + (b + c));
}

/// Taking one more element splits off exactly that element at the back.
proof fn lemma_take_step<A>(s: Seq<A>, i: int)
    requires
        0 <= i < s.len(),
    ensures
        s.take(i + 1).drop_last() == s.take(i),
        s.take(i + 1).last() == s[i],
{
    assert(s.take(i + 1).drop_last() =~= s.take(i));
}

impl HurlFile {
    /// Classify each entry in order, then each trailing line terminator.
    #[verifier::loop_isolation(false)]
    pub fn scan(&self, tokens: &mut Vec<Token>)
        requires
            file_wf(*self),
        ensures
            final(tokens)@ == old(tokens)@ + file_tokens(*self),
    {
        let mut i: usize = 0;
        while i < self.entries.len()
            invariant
                i <= self.entries.len(),
                tokens@ == old(tokens)@ + entries_tokens(self.entries@.take(i as int)),
            decreases self.entries.len() - i,
        {
            proof {
                lemma_take_step(self.entries@, i as int);
            }
            self.entries[i].scan(tokens);
            i = i + 1;
        }
        proof {
            assert(self.entries@.take(self.entries@.len() as int) =~= self.entries@);
        }
        let ghost pre = tokens@;
        let mut j: usize = 0;
        while j < self.line_terminators.len()
            invariant
                j <= self.line_terminators.len(),
                tokens@ == pre + line_terminators_tokens(self.line_terminators@.take(j as int)),
            decreases self.line_terminators.len() - j,
        {
            proof {
                lemma_take_step(self.line_terminators@, j as int);
            }
            self.line_terminators[j].scan(tokens);
            j = j + 1;
        }
        proof {
            assert(self.line_terminators@.take(self.line_terminators@.len() as int)
                =~= self.line_terminators@);
            assert(tokens@ =~= old(tokens)@ + file_tokens(*self));
        }
    }
}

impl Entry {
    /// Classify the request, then the response if present.
    pub fn scan(&self, tokens: &mut Vec<Token>)
        requires
            entry_wf(*self),
        ensures
            final(tokens)@ == old(tokens)@ + entry_tokens(*self),
    {
        self.request.scan(tokens);
        if let Some(response) = &self.response {
            response.scan(tokens);
        }
        proof {
            assert(tokens@ =~= old(tokens)@ + entry_tokens(*self));
        }
    }
}

impl LineTerminator {
    /// If a comment is attached, emit one `Comment` token: the reported
    /// range with the start column moved one column left, onto the `#`
    /// marker the reported range excludes.
    pub fn scan(&self, tokens: &mut Vec<Token>)
        requires
            line_terminator_wf(*self),
        ensures
            final(tokens)@ == old(tokens)@ + line_terminator_tokens(*self),
    {
        if let Some(comment) = &self.comment {
            tokens.push(Token::new(
                TokenType::Comment,
                SourceInfo::new(
                    comment.source_info.start.line,
                    comment.source_info.start.column - 1,
                    comment.source_info.end.line,
                    comment.source_info.end.column,
                ),
            ));
        }
        proof {
            assert(tokens@ =~= old(tokens)@ + line_terminator_tokens(*self));
        }
    }
}

impl Request {
    /// Classify the leading terminators, the method keyword, the URL,
    /// the trailing terminator, then headers, sections and body.
    #[verifier::loop_isolation(false)]
    pub fn scan(&self, tokens: &mut Vec<Token>)
        requires
            request_wf(*self),
        ensures
            final(tokens)@ == old(tokens)@ + request_tokens(*self),
    {
        let mut i: usize = 0;
        while i < self.line_terminators.len()
            invariant
                i <= self.line_terminators.len(),
                tokens@ == old(tokens)@ + line_terminators_tokens(self.line_terminators@.take(i as int)),
            decreases self.line_terminators.len() - i,
        {
            proof {
                lemma_take_step(self.line_terminators@, i as int);
            }
            self.line_terminators[i].scan(tokens);
            i = i + 1;
        }
        proof {
            assert(self.line_terminators@.take(self.line_terminators@.len() as int)
                =~= self.line_terminators@);
        }
        tokens.push(Token::new(
            TokenType::Method,
            SourceInfo::new(
                self.space0.source_info.end.line,
                self.space0.source_info.end.column,
                self.space1.source_info.start.line,
                self.space1.source_info.start.column,
            ),
        ));
        proof {
            assert(tokens@ =~= old(tokens)@ + line_terminators_tokens(self.line_terminators@)
                + seq![method_token(*self)]);
        }
        self.url.scan(tokens);
        self.line_terminator0.scan(tokens);
        let ghost pre_headers = tokens@;
        let mut j: usize = 0;
        while j < self.headers.len()
            invariant
                j <= self.headers.len(),
                tokens@ == pre_headers + key_values_tokens(self.headers@.take(j as int)),
            decreases self.headers.len() - j,
        {
            proof {
                lemma_take_step(self.headers@, j as int);
            }
            self.headers[j].scan(tokens);
            j = j + 1;
        }
        proof {
            assert(self.headers@.take(self.headers@.len() as int) =~= self.headers@);
        }
        let ghost pre_sections = tokens@;
        let mut k: usize = 0;
        while k < self.sections.len()
            invariant
                k <= self.sections.len(),
                tokens@ == pre_sections + sections_tokens(self.sections@.take(k as int)),
            decreases self.sections.len() - k,
        {
            proof {
                lemma_take_step(self.sections@, k as int);
            }
            self.sections[k].scan(tokens);
            k = k + 1;
        }
        proof {
            assert(self.sections@.take(self.sections@.len() as int) =~= self.sections@);
        }
        if let Some(body) = &self.body {
            body.scan(tokens);
        }
        proof {
            let o = old(tokens)@;
            let g1 = line_terminators_tokens(self.line_terminators@);
            let g2 = seq![method_token(*self)];
            let g3 = template_tokens(self.url);
            let g4 = line_terminator_tokens(self.line_terminator0);
            let g5 = key_values_tokens(self.headers@);
            let g6 = sections_tokens(self.sections@);
            let g7 = match &self.body {
                Some(b) => body_tokens(*b),
                None => Seq::<Token>::empty(),
            };
            if self.body is None {
                assert(tokens@ =~= tokens@ + g7);
            }
            let s6 = g6 + g7;
            let s5 = g5 + s6;
            let s4 = g4 + s5;
            let s3 = g3 + s4;
            let s2 = g2 + s3;
            lemma_add_assoc(((((o + g1) + g2) + g3) + g4) + g5, g6, g7);
            lemma_add_assoc((((o + g1) + g2) + g3) + g4, g5, s6);
            lemma_add_assoc(((o + g1) + g2) + g3, g4, s5);
            lemma_add_assoc((o + g1) + g2, g3, s4);
            lemma_add_assoc(o + g1, g2, s3);
            lemma_add_assoc(o, g1, s2);
            assert(tokens@ == o + request_tokens(*self));
        }
    }
}

impl Response {
    /// No classification rule yet: a response contributes no tokens.
    pub fn scan(&self, tokens: &mut Vec<Token>)
        ensures
            final(tokens)@ == old(tokens)@ + response_tokens(*self),
    {
        proof {
            assert(tokens@ =~= old(tokens)@ + response_tokens(*self));
        }
    }
}

impl Template {
    /// For each element in order: a literal fragment emits a `String`
    /// token over the whole template's declared range; a variable
    /// expression emits a `Variable` token over the name's own range.
    #[verifier::loop_isolation(false)]
    pub fn scan(&self, tokens: &mut Vec<Token>)
        requires
            template_wf(*self),
        ensures
            final(tokens)@ == old(tokens)@ + template_tokens(*self),
    {
        let mut i: usize = 0;
        while i < self.elements.len()
            invariant
                i <= self.elements.len(),
                tokens@ == old(tokens)@ + template_elements_tokens(*self, self.elements@.take(i as int)),
            decreases self.elements.len() - i,
        {
            proof {
                lemma_take_step(self.elements@, i as int);
            }
            match &self.elements[i] {
                TemplateElement::Literal => {
                    tokens.push(Token::new(TokenType::String, self.source_info));
                }
                TemplateElement::Expression { variable } => {
                    tokens.push(Token::new(TokenType::Variable, *variable));
                }
            }
            proof {
                assert(tokens@ =~= old(tokens)@
                    + template_elements_tokens(*self, self.elements@.take(i as int + 1)));
            }
            i = i + 1;
        }
        proof {
            assert(self.elements@.take(self.elements@.len() as int) =~= self.elements@);
        }
    }
}

impl KeyValue {
    /// Classify the leading terminators, then the key and the value —
    /// each independently as a template — then the trailing terminator.
    #[verifier::loop_isolation(false)]
    pub fn scan(&self, tokens: &mut Vec<Token>)
        requires
            key_value_wf(*self),
        ensures
            final(tokens)@ == old(tokens)@ + key_value_tokens(*self),
    {
        let mut i: usize = 0;
        while i < self.line_terminators.len()
            invariant
                i <= self.line_terminators.len(),
                tokens@ == old(tokens)@ + line_terminators_tokens(self.line_terminators@.take(i as int)),
            decreases self.line_terminators.len() - i,
        {
            proof {
                lemma_take_step(self.line_terminators@, i as int);
            }
            self.line_terminators[i].scan(tokens);
            i = i + 1;
        }
        proof {
            assert(self.line_terminators@.take(self.line_terminators@.len() as int)
                =~= self.line_terminators@);
        }
        self.key.scan(tokens);
        self.value.scan(tokens);
        self.line_terminator0.scan(tokens);
        proof {
            assert(tokens@ =~= old(tokens)@ + key_value_tokens(*self));
        }
    }
}

impl Section {
    /// Classify the leading terminators and the trailing terminator of
    /// the previous structural element; emit the section name with its
    /// bracket delimiters trimmed; then classify the contents.
    #[verifier::loop_isolation(false)]
    pub fn scan(&self, tokens: &mut Vec<Token>)
        requires
            section_wf(*self),
        ensures
            final(tokens)@ == old(tokens)@ + section_tokens(*self),
    {
        let mut i: usize = 0;
        while i < self.line_terminators.len()
            invariant
                i <= self.line_terminators.len(),
                tokens@ == old(tokens)@ + line_terminators_tokens(self.line_terminators@.take(i as int)),
            decreases self.line_terminators.len() - i,
        {
            proof {
                lemma_take_step(self.line_terminators@, i as int);
            }
            self.line_terminators[i].scan(tokens);
            i = i + 1;
        }
        proof {
            assert(self.line_terminators@.take(self.line_terminators@.len() as int)
                =~= self.line_terminators@);
        }
        self.line_terminator0.scan(tokens);
        tokens.push(Token::new(
            TokenType::SectionName,
            SourceInfo::new(
                self.source_info.start.line,
                self.source_info.start.column + 1,
                self.source_info.end.line,
                self.source_info.end.column - 1,
            ),
        ));
        self.value.scan(tokens);
        proof {
            assert(tokens@ =~= old(tokens)@ + section_tokens(*self));
        }
    }
}

impl Body {
    /// Classify the leading terminators, the (unclassified) payload,
    /// then the trailing terminator.
    #[verifier::loop_isolation(false)]
    pub fn scan(&self, tokens: &mut Vec<Token>)
        requires
            body_wf(*self),
        ensures
            final(tokens)@ == old(tokens)@ + body_tokens(*self),
    {
        let mut i: usize = 0;
        while i < self.line_terminators.len()
            invariant
                i <= self.line_terminators.len(),
                tokens@ == old(tokens)@ + line_terminators_tokens(self.line_terminators@.take(i as int)),
            decreases self.line_terminators.len() - i,
        {
            proof {
                lemma_take_step(self.line_terminators@, i as int);
            }
            self.line_terminators[i].scan(tokens);
            i = i + 1;
        }
        proof {
            assert(self.line_terminators@.take(self.line_terminators@.len() as int)
                =~= self.line_terminators@);
        }
        self.value.scan(tokens);
        self.line_terminator0.scan(tokens);
        proof {
            assert(tokens@ =~= old(tokens)@ + body_tokens(*self));
        }
    }
}

impl SectionValue {
    /// Variant dispatch: key/value sections classify their pairs in
    /// order; variants with no rule contribute no tokens, silently.
    #[verifier::loop_isolation(false)]
    pub fn scan(&self, tokens: &mut Vec<Token>)
        requires
            section_value_wf(*self),
        ensures
            final(tokens)@ == old(tokens)@ + section_value_tokens(*self),
    {
        match self {
            SectionValue::QueryParams(key_values) => {
                let mut i: usize = 0;
                while i < key_values.len()
                    invariant
                        i <= key_values.len(),
                        tokens@ == old(tokens)@ + key_values_tokens(key_values@.take(i as int)),
                    decreases key_values.len() - i,
                {
                    proof {
                        lemma_take_step(key_values@, i as int);
                    }
                    key_values[i].scan(tokens);
                    i = i + 1;
                }
                proof {
                    assert(key_values@.take(key_values@.len() as int) =~= key_values@);
                }
            }
            SectionValue::FormParams(key_values) => {
                let mut i: usize = 0;
                while i < key_values.len()
                    invariant
                        i <= key_values.len(),
                        tokens@ == old(tokens)@ + key_values_tokens(key_values@.take(i as int)),
                    decreases key_values.len() - i,
                {
                    proof {
                        lemma_take_step(key_values@, i as int);
                    }
                    key_values[i].scan(tokens);
                    i = i + 1;
                }
                proof {
                    assert(key_values@.take(key_values@.len() as int) =~= key_values@);
                }
            }
            SectionValue::MultipartFormData(multipart_params) => {
                let mut i: usize = 0;
                while i < multipart_params.len()
                    invariant
                        i <= multipart_params.len(),
                        tokens@ == old(tokens)@,
                    decreases multipart_params.len() - i,
                {
                    multipart_params[i].scan(tokens);
                    proof {
                        assert(tokens@ =~= old(tokens)@);
                    }
                    i = i + 1;
                }
            }
            SectionValue::BasicAuth(maybe_kv) => {
                if let Some(kv) = maybe_kv {
                    kv.scan(tokens);
                }
            }
            SectionValue::Unclassified => {}
        }
        proof {
            assert(tokens@ =~= old(tokens)@ + section_value_tokens(*self));
        }
    }
}

impl MultipartParam {
    /// No classification rule yet: a multipart entry contributes no
    /// tokens.
    pub fn scan(&self, tokens: &mut Vec<Token>)
        ensures
            final(tokens)@ == old(tokens)@ + multipart_param_tokens(*self),
    {
        proof {
            assert(tokens@ =~= old(tokens)@ + multipart_param_tokens(*self));
        }
    }
}

impl Bytes {
    /// No classification rule yet: a body payload contributes no tokens.
    pub fn scan(&self, tokens: &mut Vec<Token>)
        ensures
            final(tokens)@ == old(tokens)@ + bytes_tokens(*self),
    {
        proof {
            assert(tokens@ =~= old(tokens)@ + bytes_tokens(*self));
        }
    }
}

} // verus!
