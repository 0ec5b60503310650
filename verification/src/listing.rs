//! The listing extractor: author, work title and chapter links of a
//! listing page, gathered in one forward pass over its tokens.

use vstd::prelude::*;
use crate::token::{
    attribute_models, find_attribute, has_attribute, same_text, token_models, Attribute,
    AttributeModel, Token, TokenModel,
};

verus! {

/// Model of the extraction state: the region flags and what was gathered.
pub struct ListingModel {
    /// An author-marked `span` was opened and its region not yet left.
    pub author_tag: bool,
    /// The anchor inside the author span was opened.
    pub in_author: bool,
    /// A title-marked `span` was opened and its region not yet left.
    pub in_title: bool,
    /// The chapter list was opened and not yet closed.
    pub in_links: bool,
    pub author: Seq<char>,
    pub title: Seq<char>,
    pub links: Seq<Seq<char>>,
}

/// Model of what a listing page yields.
pub struct ListingResultModel {
    pub author: Seq<char>,
    pub title: Seq<char>,
    pub links: Seq<Seq<char>>,
}

/// The state before any token: no region open, nothing gathered.
pub open spec fn listing_initial() -> ListingModel {
    ListingModel {
        author_tag: false,
        in_author: false,
        in_title: false,
        in_links: false,
        author: Seq::empty(),
        title: Seq::empty(),
        links: Seq::empty(),
    }
}

/// The links that one anchor contributes: each `href` value behind the
/// protocol prefix, in attribute order.
pub open spec fn chapter_links(attrs: Seq<AttributeModel>) -> Seq<Seq<char>>
    decreases attrs.len(),
{
    if attrs.len() == 0 {
        Seq::empty()
    } else {
        let before = chapter_links(attrs.drop_last());
        if attrs.last().name == "href"@ {
            before.push("https:"@ + attrs.last().value)
        } else {
            before
        }
    }
}

/// The state after a start tag. A `span` marks the author or the title, a
/// `ul` opens the chapter list. An anchor opens the author region where an
/// author span is marked, whether or not the chapter list is open: the
/// author wins. Where no author span is marked and the chapter list is
/// open, it gives its links. So no anchor is both.
pub open spec fn listing_open(s: ListingModel, name: Seq<char>, attrs: Seq<AttributeModel>) -> ListingModel {
    if name == "span"@ {
        ListingModel {
            author_tag: s.author_tag || has_attribute(attrs, "class"@, "author"@),
            in_title: s.in_title || has_attribute(attrs, "class"@, "title"@),
            ..s
        }
    } else if name == "a"@ {
        if s.author_tag {
            ListingModel { in_author: true, ..s }
        } else if s.in_links {
            ListingModel { links: s.links + chapter_links(attrs), ..s }
        } else {
            s
        }
    } else if name == "ul"@ {
        ListingModel { in_links: s.in_links || has_attribute(attrs, "id"@, "chapter-list"@), ..s }
    } else {
        s
    }
}

/// The state after an end tag: the one open region is left, the chapter
/// list only by a closing `ul`.
pub open spec fn listing_close(s: ListingModel, name: Seq<char>) -> ListingModel {
    if s.in_author && !s.in_title && !s.in_links {
        ListingModel { in_author: false, author_tag: false, ..s }
    } else if !s.in_author && s.in_title && !s.in_links {
        ListingModel { in_title: false, ..s }
    } else if !s.in_author && !s.in_title && s.in_links && name == "ul"@ {
        ListingModel { in_links: false, ..s }
    } else {
        s
    }
}

/// The state after a text run: it replaces the author or the title,
/// whichever region alone is open.
pub open spec fn listing_text(s: ListingModel, content: Seq<char>) -> ListingModel {
    if s.in_author && !s.in_title {
        ListingModel { author: content, ..s }
    } else if !s.in_author && s.in_title {
        ListingModel { title: content, ..s }
    } else {
        s
    }
}

/// The state after one token.
pub open spec fn listing_step(s: ListingModel, t: TokenModel) -> ListingModel {
    match t {
        TokenModel::TagOpen { name, attributes } => listing_open(s, name, attributes),
        TokenModel::TagClose { name } => listing_close(s, name),
        TokenModel::Text { content } => listing_text(s, content),
        TokenModel::EndOfInput => s,
    }
}

/// The state after all of `tokens`, taken in order from `s`.
pub open spec fn listing_run(s: ListingModel, tokens: Seq<TokenModel>) -> ListingModel
    decreases tokens.len(),
{
    if tokens.len() == 0 {
        s
    } else {
        listing_step(listing_run(s, tokens.drop_last()), tokens.last())
    }
}

/// What a state yields when the page has ended.
pub open spec fn listing_result(s: ListingModel) -> ListingResultModel {
    ListingResultModel { author: s.author, title: s.title, links: s.links }
}

/// The contents of a sequence of strings, in order.
pub open spec fn texts(v: Seq<String>) -> Seq<Seq<char>> {
    Seq::new(v.len(), |i: int| v[i]@)
}

/// Author, title and chapter links of a work.
#[derive(Debug, Clone)]
pub struct ListingResult {
    pub author: String,
    pub title: String,
    pub links: Vec<String>,
}

impl View for ListingResult {
    type V = ListingResultModel;

    open spec fn view(&self) -> ListingResultModel {
        ListingResultModel { author: self.author@, title: self.title@, links: texts(self.links@) }
    }
}

/// The extraction state of one listing page.
#[derive(Debug)]
pub struct ListingExtractor {
    found_author_tag: bool,
    found_author: bool,
    found_title: bool,
    found_links: bool,
    author: String,
    title: String,
    links: Vec<String>,
}

impl View for ListingExtractor {
    type V = ListingModel;

    closed spec fn view(&self) -> ListingModel {
        ListingModel {
            author_tag: self.found_author_tag,
            in_author: self.found_author,
            in_title: self.found_title,
            in_links: self.found_links,
            author: self.author@,
            title: self.title@,
            links: texts(self.links@),
        }
    }
}

impl ListingExtractor {
    /// A fresh state: no region open, nothing gathered.
    pub fn new() -> (e: ListingExtractor)
        ensures
            e@ == listing_initial(),
    {
        let e = ListingExtractor {
            found_author_tag: false,
            found_author: false,
            found_title: false,
            found_links: false,
            author: String::new(),
            title: String::new(),
            links: Vec::new(),
        };
        assert(texts(e.links@) =~= Seq::<Seq<char>>::empty());
        e
    }

    /// Appends the links of one anchor's attributes.
    fn capture_links(&mut self, attrs: &Vec<Attribute>)
        ensures
            final(self)@ == (ListingModel {
                links: old(self)@.links + chapter_links(attribute_models(attrs@)),
                ..old(self)@
            }),
    {
        let ghost models = attribute_models(attrs@);
        let ghost start = texts(self.links@);
        assert(chapter_links(models.take(0)) =~= Seq::<Seq<char>>::empty());
        assert(start + chapter_links(models.take(0)) =~= start);
        let mut i: usize = 0;
        while i < attrs.len()
            invariant
                i <= attrs.len(),
                models == attribute_models(attrs@),
                start == old(self)@.links,
                texts(self.links@) == start + chapter_links(models.take(i as int)),
                self.found_author_tag == old(self).found_author_tag,
                self.found_author == old(self).found_author,
                self.found_title == old(self).found_title,
                self.found_links == old(self).found_links,
                self.author == old(self).author,
                self.title == old(self).title,
            decreases attrs.len() - i,
        {
            let attr = &attrs[i];
            proof {
                assert(models.take(i + 1).drop_last() =~= models.take(i as int));
                assert(models.take(i + 1).last() == attr@);
            }
            if same_text(attr.name.as_str(), "href") {
                let mut link = String::from_str("https:");
                link.append(attr.value.as_str());
                let ghost before = self.links@;
                self.links.push(link);
                assert(texts(self.links@) =~= texts(before).push(link@));
                assert(start + chapter_links(models.take(i as int)).push(link@) =~= (start
                    + chapter_links(models.take(i as int))).push(link@));
            }
            i += 1;
        }
        assert(models.take(attrs.len() as int) =~= models);
    }

    /// Consumes one token.
    pub fn process_token(&mut self, token: &Token)
        ensures
            final(self)@ == listing_step(old(self)@, token@),
    {
        match token {
            Token::TagOpen { name, attributes } => {
                if same_text(name.as_str(), "span") {
                    if find_attribute(attributes, "class", "author") {
                        self.found_author_tag = true;
                    }
                    if find_attribute(attributes, "class", "title") {
                        self.found_title = true;
                    }
                } else if same_text(name.as_str(), "a") {
                    if self.found_author_tag {
                        self.found_author = true;
                    } else if self.found_links {
                        self.capture_links(attributes);
                    }
                } else if same_text(name.as_str(), "ul") {
                    if find_attribute(attributes, "id", "chapter-list") {
                        self.found_links = true;
                    }
                }
            },
            Token::TagClose { name } => {
                if self.found_author && !self.found_title && !self.found_links {
                    self.found_author = false;
                    self.found_author_tag = false;
                } else if !self.found_author && self.found_title && !self.found_links {
                    self.found_title = false;
                } else if !self.found_author && !self.found_title && self.found_links {
                    if same_text(name.as_str(), "ul") {
                        self.found_links = false;
                    }
                }
            },
            Token::Text { content } => {
                if self.found_author && !self.found_title {
                    self.author = content.clone();
                } else if !self.found_author && self.found_title {
                    self.title = content.clone();
                }
            },
            Token::EndOfInput => {},
        }
    }

    /// Ends the pass and hands out what was gathered.
    pub fn finish(self) -> (r: ListingResult)
        ensures
            r@ == listing_result(self@),
    {
        ListingResult { author: self.author, title: self.title, links: self.links }
    }
}

impl Default for ListingExtractor {
    /// A fresh state, as `new` gives it.
    fn default() -> (e: ListingExtractor)
        ensures
            e@ == listing_initial(),
    {
        ListingExtractor::new()
    }
}

/// Extracts author, title and chapter links from the tokens of a listing
/// page, taken in document order.
pub fn extract_listing(tokens: &Vec<Token>) -> (r: ListingResult)
    ensures
        r@ == listing_result(listing_run(listing_initial(), token_models(tokens@))),
{
    let ghost models = token_models(tokens@);
    let mut state = ListingExtractor::new();
    assert(models.take(0) =~= Seq::<TokenModel>::empty());
    let mut i: usize = 0;
    while i < tokens.len()
        invariant
            i <= tokens.len(),
            models == token_models(tokens@),
            state@ == listing_run(listing_initial(), models.take(i as int)),
        decreases tokens.len() - i,
    {
        proof {
            assert(models.take(i + 1).drop_last() =~= models.take(i as int));
            assert(models.take(i + 1).last() == tokens@[i as int]@);
        }
        state.process_token(&tokens[i]);
        i += 1;
    }
    assert(models.take(tokens.len() as int) =~= models);
    state.finish()
}

/// Whether a token opens one of the regions of a listing page: a `span`
/// marked as author or as title, or the chapter list.
pub open spec fn is_listing_marker(t: TokenModel) -> bool {
    match t {
        TokenModel::TagOpen { name, attributes } => {
            ||| name == "span"@ && has_attribute(attributes, "class"@, "author"@)
            ||| name == "span"@ && has_attribute(attributes, "class"@, "title"@)
            ||| name == "ul"@ && has_attribute(attributes, "id"@, "chapter-list"@)
        },
        _ => false,
    }
}

/// A page without any marker leaves the state as it began, so it yields
/// an empty author, an empty title and no links.
pub proof fn listing_without_markers(tokens: Seq<TokenModel>)
    requires
        forall|i: int| 0 <= i < tokens.len() ==> !is_listing_marker(#[trigger] tokens[i]),
    ensures
        listing_run(listing_initial(), tokens) == listing_initial(),
        listing_result(listing_run(listing_initial(), tokens)).author.len() == 0,
        listing_result(listing_run(listing_initial(), tokens)).title.len() == 0,
        listing_result(listing_run(listing_initial(), tokens)).links.len() == 0,
    decreases tokens.len(),
{
    if tokens.len() > 0 {
        listing_without_markers(tokens.drop_last());
        assert(!is_listing_marker(tokens.last()));
        assert(listing_initial().links + chapter_links(Seq::empty()) =~= listing_initial().links);
    }
}

/// Of two text runs in a row the second alone counts: in a listing the
/// last write wins, for the author and for the title, in every state.
pub proof fn listing_text_last_wins(s: ListingModel, first: Seq<char>, second: Seq<char>)
    ensures
        listing_text(listing_text(s, first), second) == listing_text(s, second),
        s.in_author && !s.in_title ==> listing_text(listing_text(s, first), second).author
            == second,
        !s.in_author && s.in_title ==> listing_text(listing_text(s, first), second).title
            == second,
{
}

/// An anchor in the chapter list, where no author span is marked, adds
/// its links behind those gathered before, which stay as they are and in
/// their order.
pub proof fn listing_links_keep_order(s: ListingModel, attrs: Seq<AttributeModel>)
    requires
        s.in_links,
        !s.author_tag,
    ensures
        listing_open(s, "a"@, attrs).links == s.links + chapter_links(attrs),
        forall|i: int| 0 <= i < s.links.len() ==> listing_open(s, "a"@, attrs).links[i] == s.links[i],
{
    reveal_strlit("a");
    reveal_strlit("span");
    assert("a"@.len() == 1);
    assert("span"@.len() == 4);
}

/// An anchor that opens where an author span is marked opens the author
/// region and gives no link, also inside the chapter list; a text run
/// that follows is the author, unless the title region is open too.
pub proof fn listing_author_wins(s: ListingModel, attrs: Seq<AttributeModel>, content: Seq<char>)
    requires
        s.author_tag,
    ensures
        listing_open(s, "a"@, attrs) == (ListingModel { in_author: true, ..s }),
        !s.in_title ==> listing_text(listing_open(s, "a"@, attrs), content).author == content,
{
    reveal_strlit("a");
    reveal_strlit("span");
    assert("a"@.len() == 1);
    assert("span"@.len() == 4);
}

/// An anchor with one `href` and no other attribute gives one link: the
/// value behind the protocol prefix.
pub proof fn chapter_links_single(value: Seq<char>)
    ensures
        chapter_links(seq![AttributeModel { name: "href"@, value }]) == seq!["https:"@ + value],
{
    let attrs = seq![AttributeModel { name: "href"@, value }];
    assert(attrs.drop_last() =~= Seq::<AttributeModel>::empty());
    assert(chapter_links(attrs.drop_last()) =~= Seq::<Seq<char>>::empty());
    assert(chapter_links(attrs) =~= seq!["https:"@ + value]);
}

/// A text run goes to at most one region: it may replace the author or
/// the title, never both, and it touches neither the links nor a flag.
pub proof fn listing_text_one_region(s: ListingModel, content: Seq<char>)
    ensures
        listing_text(s, content).author == s.author || listing_text(s, content).title == s.title,
        listing_text(s, content).links == s.links,
        listing_text(s, content).author_tag == s.author_tag,
        listing_text(s, content).in_author == s.in_author,
        listing_text(s, content).in_title == s.in_title,
        listing_text(s, content).in_links == s.in_links,
{
}

/// Tags gather no text: a start tag leaves author and title as they were
/// and takes no link away, an end tag leaves all three as they were and
/// opens no region.
pub proof fn listing_tags_keep_text(s: ListingModel, name: Seq<char>, attrs: Seq<AttributeModel>)
    ensures
        listing_open(s, name, attrs).author == s.author,
        listing_open(s, name, attrs).title == s.title,
        s.links.is_prefix_of(listing_open(s, name, attrs).links),
        listing_close(s, name).author == s.author,
        listing_close(s, name).title == s.title,
        listing_close(s, name).links == s.links,
        listing_close(s, name).in_author ==> s.in_author,
        listing_close(s, name).in_title ==> s.in_title,
        listing_close(s, name).in_links ==> s.in_links,
{
}

} // verus!
