use hurlss::ast::{
    Body, Bytes, Comment, Entry, HurlFile, KeyValue, LineTerminator, MultipartParam, Request,
    Response, Section, SectionValue, Template, TemplateElement, Whitespace,
};
use hurlss::token::{Pos, SourceInfo, Token, TokenType};

fn si(sl: usize, sc: usize, el: usize, ec: usize) -> SourceInfo {
    SourceInfo::new(sl, sc, el, ec)
}

fn tok(tt: TokenType, sl: usize, sc: usize, el: usize, ec: usize) -> Token {
    Token::new(tt, si(sl, sc, el, ec))
}

fn plain_lt() -> LineTerminator {
    LineTerminator { comment: None }
}

fn comment_lt(sl: usize, sc: usize, el: usize, ec: usize) -> LineTerminator {
    LineTerminator {
        comment: Some(Comment {
            source_info: si(sl, sc, el, ec),
        }),
    }
}

fn literal_template(sl: usize, sc: usize, el: usize, ec: usize) -> Template {
    Template {
        source_info: si(sl, sc, el, ec),
        elements: vec![TemplateElement::Literal],
    }
}

/// A header-like pair `key: value` with literal key and value templates.
fn literal_kv(key: Template, value: Template) -> KeyValue {
    KeyValue {
        line_terminators: vec![],
        key,
        value,
        line_terminator0: plain_lt(),
    }
}

/// A one-line request `GET http://x` on line 2: the method keyword spans
/// columns 1-4, the URL columns 5-13.
fn simple_request(headers: Vec<KeyValue>, sections: Vec<Section>, body: Option<Body>) -> Request {
    Request {
        line_terminators: vec![],
        space0: Whitespace {
            source_info: si(2, 1, 2, 1),
        },
        space1: Whitespace {
            source_info: si(2, 4, 2, 5),
        },
        url: literal_template(2, 5, 2, 13),
        line_terminator0: plain_lt(),
        headers,
        sections,
        body,
    }
}

fn pos_le(a: &Pos, b: &Pos) -> bool {
    a.line < b.line || (a.line == b.line && a.column <= b.column)
}

#[test]
fn empty_document_yields_no_tokens() {
    let file = HurlFile {
        entries: vec![],
        line_terminators: vec![],
    };
    let mut tokens: Vec<Token> = Vec::new();
    file.scan(&mut tokens);
    assert!(tokens.is_empty());
}

#[test]
fn comment_token_covers_marker() {
    // A line `# note` whose comment's reported range starts at column 3,
    // just after the `#`: the emitted token must start at column 2.
    let lt = comment_lt(1, 3, 1, 9);
    let mut tokens: Vec<Token> = Vec::new();
    lt.scan(&mut tokens);
    assert_eq!(tokens, vec![tok(TokenType::Comment, 1, 2, 1, 9)]);
}

#[test]
fn section_name_trims_brackets() {
    // `[Asserts]` spanning columns 1-10: the token spans columns 2-9.
    let section = Section {
        line_terminators: vec![],
        line_terminator0: plain_lt(),
        source_info: si(4, 1, 4, 10),
        value: SectionValue::Unclassified,
    };
    let mut tokens: Vec<Token> = Vec::new();
    section.scan(&mut tokens);
    assert_eq!(tokens, vec![tok(TokenType::SectionName, 4, 2, 4, 9)]);
}

#[test]
fn single_literal_spans_template_range() {
    // A header value template of one literal fragment `"text/plain"`
    // emits exactly one String token over the template's full range.
    let template = literal_template(3, 15, 3, 25);
    let mut tokens: Vec<Token> = Vec::new();
    template.scan(&mut tokens);
    assert_eq!(tokens, vec![tok(TokenType::String, 3, 15, 3, 25)]);
}

#[test]
fn variable_token_spans_name_only() {
    // `Authorization: {{token}}`: the value template's single variable
    // expression emits a Variable token over `token` alone, the
    // delimiters excluded.
    let kv = literal_kv(
        literal_template(1, 1, 1, 14),
        Template {
            source_info: si(1, 16, 1, 25),
            elements: vec![TemplateElement::Expression {
                variable: si(1, 18, 1, 23),
            }],
        },
    );
    let mut tokens: Vec<Token> = Vec::new();
    kv.scan(&mut tokens);
    assert_eq!(
        tokens,
        vec![
            tok(TokenType::String, 1, 1, 1, 14),
            tok(TokenType::Variable, 1, 18, 1, 23),
        ]
    );
}

#[test]
fn unclassified_section_value_skipped() {
    // A section whose contents have no classification rule still emits
    // its name token, and nothing for the contents.
    let section = Section {
        line_terminators: vec![],
        line_terminator0: plain_lt(),
        source_info: si(4, 1, 4, 10),
        value: SectionValue::Unclassified,
    };
    let request = simple_request(vec![], vec![section], None);
    let entry = Entry {
        request,
        response: None,
    };
    let file = HurlFile {
        entries: vec![entry],
        line_terminators: vec![],
    };
    let mut tokens: Vec<Token> = Vec::new();
    file.scan(&mut tokens);
    assert_eq!(
        tokens,
        vec![
            tok(TokenType::Method, 2, 1, 2, 4),
            tok(TokenType::String, 2, 5, 2, 13),
            tok(TokenType::SectionName, 4, 2, 4, 9),
        ]
    );
}

#[test]
fn method_token_spans_keyword() {
    // The method token runs from the end of the whitespace before the
    // keyword to the start of the whitespace after it.
    let request = simple_request(vec![], vec![], None);
    let mut tokens: Vec<Token> = Vec::new();
    request.scan(&mut tokens);
    assert_eq!(tokens[0], tok(TokenType::Method, 2, 1, 2, 4));
}

#[test]
fn response_contributes_no_tokens() {
    // A document with a response must not fail the traversal: the
    // response contributes nothing.
    let with_response = Entry {
        request: simple_request(vec![], vec![], None),
        response: Some(Response {}),
    };
    let without_response = Entry {
        request: simple_request(vec![], vec![], None),
        response: None,
    };
    let mut a: Vec<Token> = Vec::new();
    with_response.scan(&mut a);
    let mut b: Vec<Token> = Vec::new();
    without_response.scan(&mut b);
    assert_eq!(a, b);
    assert_eq!(a.len(), 2);
}

#[test]
fn multipart_section_contributes_only_its_name() {
    let section = Section {
        line_terminators: vec![],
        line_terminator0: plain_lt(),
        source_info: si(4, 1, 4, 21),
        value: SectionValue::MultipartFormData(vec![MultipartParam {}, MultipartParam {}]),
    };
    let mut tokens: Vec<Token> = Vec::new();
    section.scan(&mut tokens);
    assert_eq!(tokens, vec![tok(TokenType::SectionName, 4, 2, 4, 20)]);
}

#[test]
fn basic_auth_classifies_its_pair() {
    let kv = literal_kv(
        literal_template(5, 1, 5, 5),
        literal_template(5, 7, 5, 12),
    );
    let some_section = Section {
        line_terminators: vec![],
        line_terminator0: plain_lt(),
        source_info: si(4, 1, 4, 13),
        value: SectionValue::BasicAuth(Some(kv)),
    };
    let mut tokens: Vec<Token> = Vec::new();
    some_section.scan(&mut tokens);
    assert_eq!(
        tokens,
        vec![
            tok(TokenType::SectionName, 4, 2, 4, 12),
            tok(TokenType::String, 5, 1, 5, 5),
            tok(TokenType::String, 5, 7, 5, 12),
        ]
    );

    let none_section = Section {
        line_terminators: vec![],
        line_terminator0: plain_lt(),
        source_info: si(4, 1, 4, 13),
        value: SectionValue::BasicAuth(None),
    };
    let mut tokens: Vec<Token> = Vec::new();
    none_section.scan(&mut tokens);
    assert_eq!(tokens, vec![tok(TokenType::SectionName, 4, 2, 4, 12)]);
}

#[test]
fn body_emits_only_its_comments() {
    let body = Body {
        line_terminators: vec![comment_lt(7, 3, 7, 10)],
        value: Bytes {},
        line_terminator0: plain_lt(),
    };
    let mut tokens: Vec<Token> = Vec::new();
    body.scan(&mut tokens);
    assert_eq!(tokens, vec![tok(TokenType::Comment, 7, 2, 7, 10)]);
}

#[test]
fn query_params_pairs_in_order() {
    let first = literal_kv(
        literal_template(5, 1, 5, 2),
        literal_template(5, 4, 5, 5),
    );
    let second = literal_kv(
        literal_template(6, 1, 6, 2),
        literal_template(6, 4, 6, 5),
    );
    let section = Section {
        line_terminators: vec![],
        line_terminator0: plain_lt(),
        source_info: si(4, 1, 4, 20),
        value: SectionValue::QueryParams(vec![first, second]),
    };
    let mut tokens: Vec<Token> = Vec::new();
    section.scan(&mut tokens);
    assert_eq!(
        tokens,
        vec![
            tok(TokenType::SectionName, 4, 2, 4, 19),
            tok(TokenType::String, 5, 1, 5, 2),
            tok(TokenType::String, 5, 4, 5, 5),
            tok(TokenType::String, 6, 1, 6, 2),
            tok(TokenType::String, 6, 4, 6, 5),
        ]
    );
}

#[test]
fn document_tokens_sorted_and_disjoint() {
    // A document exercising every rule at once: a leading comment, the
    // method line, a header, a section with pairs, and a trailing
    // comment line. The stream must come out in document order, with no
    // two token ranges overlapping.
    let header = literal_kv(
        literal_template(3, 1, 3, 6),
        literal_template(3, 8, 3, 9),
    );
    let pair = literal_kv(
        literal_template(5, 1, 5, 2),
        literal_template(5, 4, 5, 5),
    );
    let section = Section {
        line_terminators: vec![],
        line_terminator0: plain_lt(),
        source_info: si(4, 1, 4, 20),
        value: SectionValue::QueryParams(vec![pair]),
    };
    let mut request = simple_request(vec![header], vec![section], None);
    request.line_terminators = vec![comment_lt(1, 3, 1, 11)];
    let file = HurlFile {
        entries: vec![Entry {
            request,
            response: None,
        }],
        line_terminators: vec![comment_lt(6, 3, 6, 12)],
    };
    let mut tokens: Vec<Token> = Vec::new();
    file.scan(&mut tokens);
    assert_eq!(
        tokens,
        vec![
            tok(TokenType::Comment, 1, 2, 1, 11),
            tok(TokenType::Method, 2, 1, 2, 4),
            tok(TokenType::String, 2, 5, 2, 13),
            tok(TokenType::String, 3, 1, 3, 6),
            tok(TokenType::String, 3, 8, 3, 9),
            tok(TokenType::SectionName, 4, 2, 4, 19),
            tok(TokenType::String, 5, 1, 5, 2),
            tok(TokenType::String, 5, 4, 5, 5),
            tok(TokenType::Comment, 6, 2, 6, 12),
        ]
    );
    for i in 0..tokens.len() {
        let r = &tokens[i].source_info;
        assert!(pos_le(&r.start, &r.end));
        for j in (i + 1)..tokens.len() {
            let s = &tokens[j].source_info;
            // sorted by start, ties broken by end
            assert!(pos_le(&r.start, &s.start));
            if r.start.line == s.start.line && r.start.column == s.start.column {
                assert!(pos_le(&r.end, &s.end));
            }
            // non-overlap: the earlier ends before the later starts
            assert!(pos_le(&r.end, &s.start));
        }
    }
}

#[test]
fn comment_at_line_start() {
    // A comment whose marker sits in column 1: the reported range starts
    // at column 2, the emitted token at column 1.
    let lt = comment_lt(1, 2, 1, 8);
    let mut tokens: Vec<Token> = Vec::new();
    lt.scan(&mut tokens);
    assert_eq!(tokens, vec![tok(TokenType::Comment, 1, 1, 1, 8)]);
}

#[test]
fn empty_template_yields_no_tokens() {
    let template = Template {
        source_info: si(2, 5, 2, 5),
        elements: vec![],
    };
    let mut tokens: Vec<Token> = Vec::new();
    template.scan(&mut tokens);
    assert!(tokens.is_empty());
}

#[test]
fn trailing_comments_without_entries() {
    // A document of comment lines only still yields their tokens.
    let file = HurlFile {
        entries: vec![],
        line_terminators: vec![comment_lt(1, 3, 1, 9), comment_lt(2, 3, 2, 11)],
    };
    let mut tokens: Vec<Token> = Vec::new();
    file.scan(&mut tokens);
    assert_eq!(
        tokens,
        vec![
            tok(TokenType::Comment, 1, 2, 1, 9),
            tok(TokenType::Comment, 2, 2, 2, 11),
        ]
    );
}

#[test]
fn multi_variable_template_in_order() {
    // A template of two variable expressions: each emits its own
    // Variable token, in source order.
    let template = Template {
        source_info: si(2, 5, 2, 30),
        elements: vec![
            TemplateElement::Expression {
                variable: si(2, 7, 2, 11),
            },
            TemplateElement::Expression {
                variable: si(2, 20, 2, 24),
            },
        ],
    };
    let mut tokens: Vec<Token> = Vec::new();
    template.scan(&mut tokens);
    assert_eq!(
        tokens,
        vec![
            tok(TokenType::Variable, 2, 7, 2, 11),
            tok(TokenType::Variable, 2, 20, 2, 24),
        ]
    );
}
