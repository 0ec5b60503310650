//! The chapter extractor: title and body markup of a chapter page,
//! gathered in one forward pass over its tokens.

use vstd::prelude::*;
use crate::token::{
    attribute_models, find_attribute, has_attribute, token_models, AttributeModel, Token,
    TokenModel,
};

verus! {

/// The em-space, which body text drops.
pub const EM_SPACE: char = '\u{2003}';

/// What one character of body text becomes in the body markup: a newline
/// becomes a line break, an em-space vanishes, any other stays.
pub open spec fn markup_piece(c: char) -> Seq<char> {
    if c == '\n' {
        "<br />"@
    } else if c == EM_SPACE {
        Seq::empty()
    } else {
        seq![c]
    }
}

/// The body markup of a text run: the pieces of its characters, in order.
pub open spec fn body_markup(s: Seq<char>) -> Seq<char>
    decreases s.len(),
{
    if s.len() == 0 {
        Seq::empty()
    } else {
        body_markup(s.drop_last()) + markup_piece(s.last())
    }
}

/// `s` with every occurrence of the character `from` replaced by `to`.
pub open spec fn replaced(s: Seq<char>, from: char, to: Seq<char>) -> Seq<char>
    decreases s.len(),
{
    if s.len() == 0 {
        Seq::empty()
    } else if s.last() == from {
        replaced(s.drop_last(), from, to) + to
    } else {
        replaced(s.drop_last(), from, to).push(s.last())
    }
}

/// Replaces every occurrence of one character by a string.
///
/// Calls `str::replace` with a character as the pattern; the contract
/// claims what its documentation says: every match of the pattern, here
/// every occurrence of `from`, is replaced by `to`, and the rest is kept.
#[verifier::external_body]
fn replace_char(text: &str, from: char, to: &str) -> (r: String)
    ensures
        r@ == replaced(text@, from, to@),
{
    text.replace(from, to)
}

/// Replacing distributes over concatenation.
proof fn lemma_replaced_concat(a: Seq<char>, b: Seq<char>, from: char, to: Seq<char>)
    ensures
        replaced(a + b, from, to) == replaced(a, from, to) + replaced(b, from, to),
    decreases b.len(),
{
    if b.len() == 0 {
        assert(a + b =~= a);
        assert(replaced(a, from, to) + replaced(b, from, to) =~= replaced(a, from, to));
    } else {
        assert((a + b).drop_last() =~= a + b.drop_last());
        assert((a + b).last() == b.last());
        lemma_replaced_concat(a, b.drop_last(), from, to);
        if b.last() == from {
            assert((replaced(a, from, to) + replaced(b.drop_last(), from, to)) + to =~= replaced(
                a,
                from,
                to,
            ) + (replaced(b.drop_last(), from, to) + to));
        } else {
            assert((replaced(a, from, to) + replaced(b.drop_last(), from, to)).push(b.last())
                =~= replaced(a, from, to) + replaced(b.drop_last(), from, to).push(b.last()));
        }
    }
}

/// Replacing a character that does not occur changes nothing.
proof fn lemma_replaced_absent(s: Seq<char>, from: char, to: Seq<char>)
    requires
        forall|i: int| 0 <= i < s.len() ==> s[i] != from,
    ensures
        replaced(s, from, to) == s,
    decreases s.len(),
{
    if s.len() > 0 {
        lemma_replaced_absent(s.drop_last(), from, to);
        assert(s.drop_last().push(s.last()) =~= s);
    } else {
        assert(s =~= Seq::<char>::empty());
    }
}

/// Replacing newlines by line breaks and then dropping em-spaces gives
/// the body markup.
proof fn lemma_two_passes(s: Seq<char>)
    ensures
        replaced(replaced(s, '\n', "<br />"@), EM_SPACE, Seq::empty()) == body_markup(s),
    decreases s.len(),
{
    let br = "<br />"@;
    let none = Seq::<char>::empty();
    if s.len() > 0 {
        let head = replaced(s.drop_last(), '\n', br);
        let c = s.last();
        lemma_two_passes(s.drop_last());
        if c == '\n' {
            lemma_replaced_concat(head, br, EM_SPACE, none);
            reveal_strlit("<br />");
            lemma_replaced_absent(br, EM_SPACE, none);
        } else {
            let one = seq![c];
            assert(head.push(c) =~= head + one);
            lemma_replaced_concat(head, one, EM_SPACE, none);
            assert(one.drop_last() =~= none);
            assert(replaced(one.drop_last(), EM_SPACE, none) =~= none);
            if c == EM_SPACE {
                assert(replaced(one, EM_SPACE, none) =~= none);
            } else {
                assert(replaced(one, EM_SPACE, none) =~= one);
            }
        }
    }
}

/// Turns one run of body text into body markup.
pub fn to_body_markup(text: &str) -> (r: String)
    ensures
        r@ == body_markup(text@),
{
    let broken = replace_char(text, '\n', "<br />");
    let r = replace_char(broken.as_str(), EM_SPACE, "");
    proof {
        reveal_strlit("");
        assert(""@ =~= Seq::<char>::empty());
        lemma_two_passes(text@);
    }
    r
}

/// The body markup of two runs, one after the other, is the markup of the
/// first followed by the markup of the second: where a newline and an
/// em-space stand relative to each other does not matter.
pub proof fn body_markup_concat(a: Seq<char>, b: Seq<char>)
    ensures
        body_markup(a + b) == body_markup(a) + body_markup(b),
    decreases b.len(),
{
    if b.len() == 0 {
        assert(a + b =~= a);
        assert(body_markup(a) + body_markup(b) =~= body_markup(a));
    } else {
        assert((a + b).drop_last() =~= a + b.drop_last());
        assert((a + b).last() == b.last());
        body_markup_concat(a, b.drop_last());
        assert((body_markup(a) + body_markup(b.drop_last())) + markup_piece(b.last())
            =~= body_markup(a) + (body_markup(b.drop_last()) + markup_piece(b.last())));
    }
}

/// The body markup of a single character is its piece: a line break for a
/// newline, nothing for an em-space, the character itself otherwise.
pub proof fn body_markup_single(c: char)
    ensures
        body_markup(seq![c]) == markup_piece(c),
        markup_piece('\n') == "<br />"@,
        markup_piece(EM_SPACE).len() == 0,
        c != '\n' && c != EM_SPACE ==> markup_piece(c) == seq![c],
{
    let one = seq![c];
    assert(one.drop_last() =~= Seq::<char>::empty());
    assert(body_markup(one.drop_last()) =~= Seq::<char>::empty());
    assert(body_markup(one) =~= markup_piece(c));
}

/// Model of the extraction state: the region flags and what was gathered.
pub struct ChapterModel {
    /// A title-marked element was opened and its region not yet left.
    pub in_title: bool,
    /// A body-marked element was opened and its region not yet left.
    pub in_body: bool,
    pub title: Seq<char>,
    pub body: Seq<char>,
}

/// Model of what a chapter page yields.
pub struct ChapterResultModel {
    pub title: Seq<char>,
    pub body: Seq<char>,
}

/// The state before any token: no region open, nothing gathered.
pub open spec fn chapter_initial() -> ChapterModel {
    ChapterModel { in_title: false, in_body: false, title: Seq::empty(), body: Seq::empty() }
}

/// The state after a start tag, whatever its name.
pub open spec fn chapter_open(s: ChapterModel, attrs: Seq<AttributeModel>) -> ChapterModel {
    ChapterModel {
        in_title: s.in_title || has_attribute(attrs, "class"@, "name"@),
        in_body: s.in_body || has_attribute(attrs, "class"@, "content"@),
        ..s
    }
}

/// The state after an end tag, whatever its name: the one open region is
/// left.
pub open spec fn chapter_close(s: ChapterModel) -> ChapterModel {
    if s.in_title && !s.in_body {
        ChapterModel { in_title: false, ..s }
    } else if !s.in_title && s.in_body {
        ChapterModel { in_body: false, ..s }
    } else {
        s
    }
}

/// The state after a text run: it is added to the title as it is, or to
/// the body as markup, whichever region alone is open.
pub open spec fn chapter_text(s: ChapterModel, content: Seq<char>) -> ChapterModel {
    if s.in_title && !s.in_body {
        ChapterModel { title: s.title + content, ..s }
    } else if !s.in_title && s.in_body {
        ChapterModel { body: s.body + body_markup(content), ..s }
    } else {
        s
    }
}

/// The state after one token.
pub open spec fn chapter_step(s: ChapterModel, t: TokenModel) -> ChapterModel {
    match t {
        TokenModel::TagOpen { name, attributes } => chapter_open(s, attributes),
        TokenModel::TagClose { name } => chapter_close(s),
        TokenModel::Text { content } => chapter_text(s, content),
        TokenModel::EndOfInput => s,
    }
}

/// The state after all of `tokens`, taken in order from `s`.
pub open spec fn chapter_run(s: ChapterModel, tokens: Seq<TokenModel>) -> ChapterModel
    decreases tokens.len(),
{
    if tokens.len() == 0 {
        s
    } else {
        chapter_step(chapter_run(s, tokens.drop_last()), tokens.last())
    }
}

/// What a state yields when the page has ended.
pub open spec fn chapter_result(s: ChapterModel) -> ChapterResultModel {
    ChapterResultModel { title: s.title, body: s.body }
}

/// Title and body markup of a chapter.
#[derive(Debug, Clone)]
pub struct ChapterResult {
    pub title: String,
    pub body: String,
}

impl View for ChapterResult {
    type V = ChapterResultModel;

    open spec fn view(&self) -> ChapterResultModel {
        ChapterResultModel { title: self.title@, body: self.body@ }
    }
}

/// The extraction state of one chapter page.
#[derive(Debug)]
pub struct ChapterExtractor {
    found_name: bool,
    found_content: bool,
    title: String,
    text: String,
}

impl View for ChapterExtractor {
    type V = ChapterModel;

    closed spec fn view(&self) -> ChapterModel {
        ChapterModel {
            in_title: self.found_name,
            in_body: self.found_content,
            title: self.title@,
            body: self.text@,
        }
    }
}

impl ChapterExtractor {
    /// A fresh state: no region open, nothing gathered.
    pub fn new() -> (e: ChapterExtractor)
        ensures
            e@ == chapter_initial(),
    {
        ChapterExtractor {
            found_name: false,
            found_content: false,
            title: String::new(),
            text: String::new(),
        }
    }

    /// Consumes one token.
    pub fn process_token(&mut self, token: &Token)
        ensures
            final(self)@ == chapter_step(old(self)@, token@),
    {
        match token {
            Token::TagOpen { name, attributes } => {
                if find_attribute(attributes, "class", "name") {
                    self.found_name = true;
                }
                if find_attribute(attributes, "class", "content") {
                    self.found_content = true;
                }
            },
            Token::TagClose { name } => {
                if self.found_name && !self.found_content {
                    self.found_name = false;
                } else if !self.found_name && self.found_content {
                    self.found_content = false;
                }
            },
            Token::Text { content } => {
                if self.found_name && !self.found_content {
                    self.title.append(content.as_str());
                } else if !self.found_name && self.found_content {
                    if content.as_str().is_empty() {
                        assert(content@ =~= Seq::<char>::empty());
                        assert(self.text@ + body_markup(content@) =~= self.text@);
                        return ;
                    }
                    let markup = to_body_markup(content.as_str());
                    self.text.append(markup.as_str());
                }
            },
            Token::EndOfInput => {},
        }
    }

    /// Ends the pass and hands out what was gathered.
    pub fn finish(self) -> (r: ChapterResult)
        ensures
            r@ == chapter_result(self@),
    {
        ChapterResult { title: self.title, body: self.text }
    }
}

impl Default for ChapterExtractor {
    /// A fresh state, as `new` gives it.
    fn default() -> (e: ChapterExtractor)
        ensures
            e@ == chapter_initial(),
    {
        ChapterExtractor::new()
    }
}

/// Extracts title and body markup from the tokens of a chapter page,
/// taken in document order.
pub fn extract_chapter(tokens: &Vec<Token>) -> (r: ChapterResult)
    ensures
        r@ == chapter_result(chapter_run(chapter_initial(), token_models(tokens@))),
{
    let ghost models = token_models(tokens@);
    let mut state = ChapterExtractor::new();
    assert(models.take(0) =~= Seq::<TokenModel>::empty());
    let mut i: usize = 0;
    while i < tokens.len()
        invariant
            i <= tokens.len(),
            models == token_models(tokens@),
            state@ == chapter_run(chapter_initial(), models.take(i as int)),
        decreases tokens.len() - i,
    {
        proof {
            assert(models.take(i + 1).drop_last() =~= models.take(i as int));
            assert(models.take(i + 1).last() == tokens@[i as int]@);
        }
        state.process_token(&tokens[i]);
        i += 1;
    }
    assert(models.take(tokens.len() as int) =~= models);
    state.finish()
}

/// Two text runs in a row count as one run that holds both: a chapter
/// gathers by concatenation, for the title and for the body, in every
/// state.
pub proof fn chapter_text_concatenates(s: ChapterModel, first: Seq<char>, second: Seq<char>)
    ensures
        chapter_text(chapter_text(s, first), second) == chapter_text(s, first + second),
        s.in_title && !s.in_body ==> chapter_text(chapter_text(s, first), second).title == s.title
            + first + second,
        !s.in_title && s.in_body ==> chapter_text(chapter_text(s, first), second).body == s.body
            + body_markup(first) + body_markup(second),
{
    body_markup_concat(first, second);
    assert((s.title + first) + second =~= s.title + (first + second));
    assert((s.body + body_markup(first)) + body_markup(second) =~= s.body + (body_markup(first)
        + body_markup(second)));
}

/// An empty text run changes nothing, in every state: inside the body
/// region the body stays as long as it was.
pub proof fn chapter_empty_text_is_noop(s: ChapterModel)
    ensures
        chapter_step(s, TokenModel::Text { content: Seq::empty() }) == s,
        chapter_step(s, TokenModel::Text { content: Seq::empty() }).body.len() == s.body.len(),
{
    assert(s.title + Seq::<char>::empty() =~= s.title);
    assert(s.body + body_markup(Seq::<char>::empty()) =~= s.body);
}

/// A text run goes to at most one region: it may lengthen the title or
/// the body, never both, and it touches no flag.
pub proof fn chapter_text_one_region(s: ChapterModel, content: Seq<char>)
    ensures
        chapter_text(s, content).title == s.title || chapter_text(s, content).body == s.body,
        s.title.is_prefix_of(chapter_text(s, content).title),
        s.body.is_prefix_of(chapter_text(s, content).body),
        chapter_text(s, content).in_title == s.in_title,
        chapter_text(s, content).in_body == s.in_body,
{
}

/// Tags gather no text: title and body are as they were after a start
/// tag and after an end tag, and an end tag opens no region.
pub proof fn chapter_tags_keep_text(s: ChapterModel, attrs: Seq<AttributeModel>)
    ensures
        chapter_open(s, attrs).title == s.title,
        chapter_open(s, attrs).body == s.body,
        chapter_close(s).title == s.title,
        chapter_close(s).body == s.body,
        chapter_close(s).in_title ==> s.in_title,
        chapter_close(s).in_body ==> s.in_body,
{
}

} // verus!
