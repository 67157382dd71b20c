//! The tokens that the generated code is assembled from, and their
//! rendering to text by genco's formatter.

use vstd::prelude::*;

verus! {

/// A piece of generated code.
#[derive(Debug, PartialEq, Eq)]
pub enum Token {
    /// Text that is written as it is.
    Literal(String),
    /// Text that is written as a string literal of the target language.
    Quoted(String),
    /// A space, unless one was just asked for.
    Space,
    /// The end of the line, unless the line is empty.
    Push,
    /// An empty line.
    Line,
    /// One more level of indentation from the next line on.
    Indent,
    /// One level of indentation less from the next line on.
    Unindent,
}

/// The model of a token.
pub enum TokenModel {
    Literal(Seq<char>),
    Quoted(Seq<char>),
    Space,
    Push,
    Line,
    Indent,
    Unindent,
}

impl View for Token {
    type V = TokenModel;

    open spec fn view(&self) -> TokenModel {
        match self {
            Token::Literal(text) => TokenModel::Literal(text@),
            Token::Quoted(text) => TokenModel::Quoted(text@),
            Token::Space => TokenModel::Space,
            Token::Push => TokenModel::Push,
            Token::Line => TokenModel::Line,
            Token::Indent => TokenModel::Indent,
            Token::Unindent => TokenModel::Unindent,
        }
    }
}

/// The model of each token of `tokens`, in order.
pub open spec fn token_models(tokens: Seq<Token>) -> Seq<TokenModel> {
    Seq::new(tokens.len(), |i: int| tokens[i]@)
}

/// An item of a genco token stream, as far as this library makes them.
pub enum StreamItem {
    Literal(Seq<char>),
    Push,
    Line,
    Space,
    /// A change of the indentation level by so many steps.
    Indentation(int),
    OpenQuote,
    CloseQuote,
}

/// The largest indentation level, up or down, that a token list may reach.
pub open spec fn max_depth() -> int {
    8000
}

/// The change of the indentation level that `item` makes.
pub open spec fn step(item: StreamItem) -> int {
    match item {
        StreamItem::Indentation(n) => n,
        _ => 0,
    }
}

/// The indentation level after `items`.
pub open spec fn level(items: Seq<StreamItem>) -> int
    decreases items.len(),
{
    if items.len() == 0 {
        0
    } else {
        level(items.drop_last()) + step(items.last())
    }
}

/// Whether the indentation level stays within `max_depth()`, up and down,
/// after every item of `items`.
pub open spec fn level_bounded(items: Seq<StreamItem>) -> bool
    decreases items.len(),
{
    items.len() == 0 || (level_bounded(items.drop_last()) && -max_depth() <= level(items)
        <= max_depth())
}

/// Whether `item` is white space that a line break takes the place of.
pub open spec fn yields_to_push(item: StreamItem) -> bool {
    item is Space || item is Push
}

/// Whether `item` is a line break that an empty line takes the place of.
pub open spec fn yields_to_line(item: StreamItem) -> bool {
    item is Line || item is Push
}

/// `items` without the items at its end that a line break takes the place of.
pub open spec fn before_push(items: Seq<StreamItem>) -> Seq<StreamItem>
    decreases items.len(),
{
    if items.len() > 0 && yields_to_push(items.last()) {
        before_push(items.drop_last())
    } else {
        items
    }
}

/// `items` without the items at its end that an empty line takes the place of.
pub open spec fn before_line(items: Seq<StreamItem>) -> Seq<StreamItem>
    decreases items.len(),
{
    if items.len() > 0 && yields_to_line(items.last()) {
        before_line(items.drop_last())
    } else {
        items
    }
}

/// The stream after `Tokens::space`: a space, unless one is at its end.
pub open spec fn with_space(items: Seq<StreamItem>) -> Seq<StreamItem> {
    if items.len() > 0 && items.last() is Space {
        items
    } else {
        items.push(StreamItem::Space)
    }
}

/// The stream after `Tokens::push`: spaces and line breaks at its end give
/// way to one line break, unless an empty line stands before them.
pub open spec fn with_push(items: Seq<StreamItem>) -> Seq<StreamItem> {
    let kept = before_push(items);
    if kept.len() > 0 && kept.last() is Line {
        kept
    } else {
        kept.push(StreamItem::Push)
    }
}

/// The stream after `Tokens::line`: line breaks and empty lines at its end
/// give way to one empty line.
pub open spec fn with_line(items: Seq<StreamItem>) -> Seq<StreamItem> {
    before_line(items).push(StreamItem::Line)
}

/// The stream after `Tokens::indent` (`n` is 1) or `Tokens::unindent` (`n`
/// is -1): white space at its end is dropped, changes of indentation at its
/// end are added to `n`, and what is left of `n` is put at the end.
pub open spec fn with_indentation(items: Seq<StreamItem>, n: int) -> Seq<StreamItem>
    decreases items.len(),
{
    if items.len() > 0 && (items.last() is Push || items.last() is Space || items.last()
        is Line) {
        with_indentation(items.drop_last(), n)
    } else if items.len() > 0 && items.last() is Indentation {
        with_indentation(items.drop_last(), n + items.last()->Indentation_0)
    } else if n != 0 {
        items.push(StreamItem::Indentation(n))
    } else {
        items
    }
}

/// The stream after a string literal with the content `text` was appended.
pub open spec fn with_quoted(items: Seq<StreamItem>, text: Seq<char>) -> Seq<StreamItem> {
    items.push(StreamItem::OpenQuote).push(StreamItem::Literal(text)).push(
        StreamItem::CloseQuote,
    )
}

/// The stream after `token` was appended.
pub open spec fn with_token(items: Seq<StreamItem>, token: TokenModel) -> Seq<StreamItem> {
    match token {
        TokenModel::Literal(text) => items.push(StreamItem::Literal(text)),
        TokenModel::Quoted(text) => with_quoted(items, text),
        TokenModel::Space => with_space(items),
        TokenModel::Push => with_push(items),
        TokenModel::Line => with_line(items),
        TokenModel::Indent => with_indentation(items, 1),
        TokenModel::Unindent => with_indentation(items, -1),
    }
}

/// The stream that `tokens` make, appended one after the other to an empty one.
pub open spec fn stream_of(tokens: Seq<TokenModel>) -> Seq<StreamItem>
    decreases tokens.len(),
{
    if tokens.len() == 0 {
        Seq::empty()
    } else {
        with_token(stream_of(tokens.drop_last()), tokens.last())
    }
}

/// The indentation level after `tokens`.
pub open spec fn depth(tokens: Seq<TokenModel>) -> int
    decreases tokens.len(),
{
    if tokens.len() == 0 {
        0
    } else {
        depth(tokens.drop_last()) + match tokens.last() {
            TokenModel::Indent => 1int,
            TokenModel::Unindent => -1int,
            _ => 0int,
        }
    }
}

/// Whether the indentation level stays within `max_depth()`, up and down,
/// after every token of `tokens`.
pub open spec fn within_depth(tokens: Seq<TokenModel>) -> bool
    decreases tokens.len(),
{
    tokens.len() == 0 || (within_depth(tokens.drop_last()) && -max_depth() <= depth(tokens)
        <= max_depth())
}

/// Whether every quote of `items` is whole: an opening quote, a literal
/// and a closing quote, one behind the other, and no opening or closing
/// quote stands elsewhere.
pub open spec fn quotes_whole(items: Seq<StreamItem>) -> bool
    decreases items.len(),
{
    if items.len() == 0 {
        true
    } else if items.last() is CloseQuote {
        items.len() >= 3 && items[items.len() - 2] is Literal && items[items.len() - 3]
            is OpenQuote && quotes_whole(items.take(items.len() - 3))
    } else {
        !(items.last() is OpenQuote) && quotes_whole(items.drop_last())
    }
}

/// A genco stream of Dart tokens under construction: a `genco::Tokens` for
/// Dart. What it holds is known only through `stream_items`.
#[verifier::external_body]
pub struct TokenStream {
    inner: genco::Tokens<genco::lang::Dart>,
}

/// The items that a stream holds, in order.
pub uninterp spec fn stream_items(stream: TokenStream) -> Seq<StreamItem>;

/// The text of the file that genco's formatter makes of a stream of
/// `items`, with `width` spaces to a level of indentation.
pub uninterp spec fn dart_file_text(items: Seq<StreamItem>, width: nat) -> Seq<char>;

/// `Tokens::new`: a stream without items.
#[verifier::external_body]
fn stream_new() -> (stream: TokenStream)
    ensures
        stream_items(stream) == Seq::<StreamItem>::empty(),
{
    TokenStream { inner: genco::Tokens::new() }
}

/// `Tokens::append` of a string slice: one literal more at the end.
#[verifier::external_body]
fn stream_literal(stream: &mut TokenStream, text: &str)
    ensures
        stream_items(*final(stream)) == stream_items(*old(stream)).push(
            StreamItem::Literal(text@),
        ),
{
    stream.inner.append(text)
}

/// `Tokens::append` of `quoted` of a string slice: an opening quote, the
/// text as a literal, and a closing quote more at the end.
#[verifier::external_body]
fn stream_quoted(stream: &mut TokenStream, text: &str)
    ensures
        stream_items(*final(stream)) == with_quoted(stream_items(*old(stream)), text@),
{
    stream.inner.append(genco::tokens::quoted(text))
}

/// `Tokens::space`: it adds a space unless the stream ends with one.
#[verifier::external_body]
fn stream_space(stream: &mut TokenStream)
    ensures
        stream_items(*final(stream)) == with_space(stream_items(*old(stream))),
{
    stream.inner.space()
}

/// `Tokens::push`: it takes the spaces and line breaks off the end of the
/// stream, and adds a line break unless an empty line is then at the end.
#[verifier::external_body]
fn stream_push(stream: &mut TokenStream)
    ensures
        stream_items(*final(stream)) == with_push(stream_items(*old(stream))),
{
    stream.inner.push()
}

/// `Tokens::line`: it takes the line breaks and empty lines off the end of
/// the stream, and adds an empty line.
#[verifier::external_body]
fn stream_line(stream: &mut TokenStream)
    ensures
        stream_items(*final(stream)) == with_line(stream_items(*old(stream))),
{
    stream.inner.line()
}

/// `Tokens::indent`: it takes the white space and the changes of
/// indentation off the end of the stream, and adds one change by the sum of
/// those and one step up, unless the sum is none. It adds up in 16 bits: the
/// bound on the levels keeps every such sum in range.
#[verifier::external_body]
fn stream_indent(stream: &mut TokenStream)
    requires
        level_bounded(stream_items(*old(stream))),
    ensures
        stream_items(*final(stream)) == with_indentation(stream_items(*old(stream)), 1),
{
    stream.inner.indent()
}

/// `Tokens::unindent`: as `Tokens::indent`, with one step down.
#[verifier::external_body]
fn stream_unindent(stream: &mut TokenStream)
    requires
        level_bounded(stream_items(*old(stream))),
    ensures
        stream_items(*final(stream)) == with_indentation(stream_items(*old(stream)), -1),
{
    stream.inner.unindent()
}

/// `Tokens::format_file` into a `String`, with genco's settings for Dart and
/// `width` spaces to a level of indentation. The formatter keeps the level
/// in 16 bits and multiplies it by the width: the bounds on the levels and
/// on the width keep both in range. It refuses a stream only at a closing
/// quote that no opening quote goes before, and writing into a `String`
/// does not fail: a stream whose quotes are whole is formatted.
#[verifier::external_body]
fn stream_format(stream: &TokenStream, width: usize) -> (r: Option<String>)
    requires
        level_bounded(stream_items(*stream)),
        width <= 16,
    ensures
        r matches Some(text) ==> text@ == dart_file_text(stream_items(*stream), width as nat),
        quotes_whole(stream_items(*stream)) ==> r is Some,
{
    let mut writer = genco::fmt::FmtWriter::new(String::new());
    let settings = genco::fmt::Config::from_lang::<genco::lang::Dart>().with_indentation(
        genco::fmt::Indentation::Space(width),
    );
    let config = genco::lang::dart::Config::default();
    stream.inner.format_file(&mut writer.as_formatter(&settings), &config).ok()?;
    Some(writer.into_inner())
}

/// The text that genco's formatter makes of a stream of `items` that is
/// part of a line, with its settings for Dart.
pub uninterp spec fn dart_text(items: Seq<StreamItem>) -> Seq<char>;

/// `Tokens::to_string`: the text of the stream, with genco's settings for
/// Dart. The formatter keeps the level in 16 bits: the bound on the levels
/// keeps it in range. As `Tokens::format_file` it formats every stream
/// whose quotes are whole.
#[verifier::external_body]
fn stream_text(stream: &TokenStream) -> (r: Option<String>)
    requires
        level_bounded(stream_items(*stream)),
    ensures
        r matches Some(text) ==> text@ == dart_text(stream_items(*stream)),
        quotes_whole(stream_items(*stream)) ==> r is Some,
{
    stream.inner.to_string().ok()
}

/// The string literal of the target language with the content `text`.
pub open spec fn string_literal(text: Seq<char>) -> Seq<char> {
    dart_text(with_quoted(Seq::empty(), text))
}

/// Why a token list was not rendered.
#[derive(Clone, Copy, Debug, PartialEq, Eq, Structural)]
pub enum RenderError {
    /// The indentation level leaves the range that the formatter can hold.
    TooDeep,
}

proof fn lemma_before_push(items: Seq<StreamItem>)
    requires
        level_bounded(items),
    ensures
        level_bounded(before_push(items)),
        level(before_push(items)) == level(items),
    decreases items.len(),
{
    if items.len() > 0 && yields_to_push(items.last()) {
        lemma_before_push(items.drop_last());
    }
}

proof fn lemma_before_line(items: Seq<StreamItem>)
    requires
        level_bounded(items),
    ensures
        level_bounded(before_line(items)),
        level(before_line(items)) == level(items),
    decreases items.len(),
{
    if items.len() > 0 && yields_to_line(items.last()) {
        lemma_before_line(items.drop_last());
    }
}

proof fn lemma_level_push(items: Seq<StreamItem>, item: StreamItem)
    requires
        level_bounded(items),
        -max_depth() <= level(items) + step(item) <= max_depth(),
    ensures
        level_bounded(items.push(item)),
        level(items.push(item)) == level(items) + step(item),
{
    assert(items.push(item).drop_last() =~= items);
}

proof fn lemma_with_indentation(items: Seq<StreamItem>, n: int)
    requires
        level_bounded(items),
        -max_depth() <= level(items) + n <= max_depth(),
    ensures
        level_bounded(with_indentation(items, n)),
        level(with_indentation(items, n)) == level(items) + n,
    decreases items.len(),
{
    if items.len() > 0 && (items.last() is Push || items.last() is Space || items.last()
        is Line) {
        lemma_with_indentation(items.drop_last(), n);
    } else if items.len() > 0 && items.last() is Indentation {
        lemma_with_indentation(items.drop_last(), n + items.last()->Indentation_0);
    } else if n != 0 {
        lemma_level_push(items, StreamItem::Indentation(n));
    }
}

proof fn lemma_quotes_push(items: Seq<StreamItem>, item: StreamItem)
    requires
        quotes_whole(items),
        !(item is OpenQuote),
        !(item is CloseQuote),
    ensures
        quotes_whole(items.push(item)),
{
    assert(items.push(item).drop_last() =~= items);
}

proof fn lemma_quotes_before_push(items: Seq<StreamItem>)
    requires
        quotes_whole(items),
    ensures
        quotes_whole(before_push(items)),
    decreases items.len(),
{
    if items.len() > 0 && yields_to_push(items.last()) {
        lemma_quotes_before_push(items.drop_last());
    }
}

proof fn lemma_quotes_before_line(items: Seq<StreamItem>)
    requires
        quotes_whole(items),
    ensures
        quotes_whole(before_line(items)),
    decreases items.len(),
{
    if items.len() > 0 && yields_to_line(items.last()) {
        lemma_quotes_before_line(items.drop_last());
    }
}

proof fn lemma_quotes_with_indentation(items: Seq<StreamItem>, n: int)
    requires
        quotes_whole(items),
    ensures
        quotes_whole(with_indentation(items, n)),
    decreases items.len(),
{
    if items.len() > 0 && (items.last() is Push || items.last() is Space || items.last()
        is Line) {
        lemma_quotes_with_indentation(items.drop_last(), n);
    } else if items.len() > 0 && items.last() is Indentation {
        lemma_quotes_with_indentation(items.drop_last(), n + items.last()->Indentation_0);
    } else if n != 0 {
        lemma_quotes_push(items, StreamItem::Indentation(n));
    }
}

/// Appending a token to a stream whose quotes are whole leaves them whole.
proof fn lemma_quotes_with_token(items: Seq<StreamItem>, token: TokenModel)
    requires
        quotes_whole(items),
    ensures
        quotes_whole(with_token(items, token)),
{
    match token {
        TokenModel::Literal(text) => {
            lemma_quotes_push(items, StreamItem::Literal(text));
        },
        TokenModel::Quoted(text) => {
            let all = with_quoted(items, text);
            assert(all.take(all.len() - 3) =~= items);
        },
        TokenModel::Space => {
            if !(items.len() > 0 && items.last() is Space) {
                lemma_quotes_push(items, StreamItem::Space);
            }
        },
        TokenModel::Push => {
            lemma_quotes_before_push(items);
            let kept = before_push(items);
            if !(kept.len() > 0 && kept.last() is Line) {
                lemma_quotes_push(kept, StreamItem::Push);
            }
        },
        TokenModel::Line => {
            lemma_quotes_before_line(items);
            lemma_quotes_push(before_line(items), StreamItem::Line);
        },
        TokenModel::Indent => {
            lemma_quotes_with_indentation(items, 1);
        },
        TokenModel::Unindent => {
            lemma_quotes_with_indentation(items, -1);
        },
    }
}

/// The quotes of the stream that tokens make are whole.
pub proof fn lemma_stream_quotes_whole(tokens: Seq<TokenModel>)
    ensures
        quotes_whole(stream_of(tokens)),
    decreases tokens.len(),
{
    if tokens.len() > 0 {
        lemma_stream_quotes_whole(tokens.drop_last());
        lemma_quotes_with_token(stream_of(tokens.drop_last()), tokens.last());
    }
}

/// Appending a token that keeps the level in range keeps the stream's
/// levels in range, and changes its level as the token says.
proof fn lemma_with_token(items: Seq<StreamItem>, token: TokenModel, change: int)
    requires
        level_bounded(items),
        change == match token {
            TokenModel::Indent => 1int,
            TokenModel::Unindent => -1int,
            _ => 0int,
        },
        -max_depth() <= level(items) + change <= max_depth(),
    ensures
        level_bounded(with_token(items, token)),
        level(with_token(items, token)) == level(items) + change,
{
    match token {
        TokenModel::Literal(text) => {
            lemma_level_push(items, StreamItem::Literal(text));
        },
        TokenModel::Quoted(text) => {
            lemma_level_push(items, StreamItem::OpenQuote);
            let a = items.push(StreamItem::OpenQuote);
            lemma_level_push(a, StreamItem::Literal(text));
            lemma_level_push(a.push(StreamItem::Literal(text)), StreamItem::CloseQuote);
        },
        TokenModel::Space => {
            if !(items.len() > 0 && items.last() is Space) {
                lemma_level_push(items, StreamItem::Space);
            }
        },
        TokenModel::Push => {
            lemma_before_push(items);
            let kept = before_push(items);
            if !(kept.len() > 0 && kept.last() is Line) {
                lemma_level_push(kept, StreamItem::Push);
            }
        },
        TokenModel::Line => {
            lemma_before_line(items);
            lemma_level_push(before_line(items), StreamItem::Line);
        },
        TokenModel::Indent => {
            lemma_with_indentation(items, 1);
        },
        TokenModel::Unindent => {
            lemma_with_indentation(items, -1);
        },
    }
}

/// Renders `tokens` to the text of a file, with `width` spaces to a level
/// of indentation (at most 16 are used).
///
/// A list is rendered if and only if its indentation level stays within
/// the range of `max_depth()`. The text is what genco's formatter makes of
/// the stream that the tokens make.
pub fn render_text(tokens: &Vec<Token>, width: usize) -> (r: Result<String, RenderError>)
    ensures
        r is Ok <==> within_depth(token_models(tokens@)),
        match r {
            Ok(text) => text@ == dart_file_text(
                stream_of(token_models(tokens@)),
                if width <= 16 {
                    width as nat
                } else {
                    16
                },
            ),
            Err(e) => e == RenderError::TooDeep,
        },
{
    let ghost all = token_models(tokens@);
    let mut stream = stream_new();
    let mut current: i32 = 0;
    let mut i: usize = 0;
    assert(all.take(0) =~= Seq::<TokenModel>::empty());
    while i < tokens.len()
        invariant
            i <= tokens.len(),
            all == token_models(tokens@),
            stream_items(stream) == stream_of(all.take(i as int)),
            level_bounded(stream_items(stream)),
            level(stream_items(stream)) == current == depth(all.take(i as int)),
            within_depth(all.take(i as int)),
        decreases tokens.len() - i,
    {
        proof {
            assert(all.take(i + 1).drop_last() =~= all.take(i as int));
            assert(all.take(i + 1).last() == tokens@[i as int]@);
        }
        let ghost before = stream_items(stream);
        match &tokens[i] {
            Token::Literal(text) => {
                proof {
                    lemma_with_token(before, tokens@[i as int]@, 0);
                }
                stream_literal(&mut stream, text.as_str());
            },
            Token::Quoted(text) => {
                proof {
                    lemma_with_token(before, tokens@[i as int]@, 0);
                }
                stream_quoted(&mut stream, text.as_str());
            },
            Token::Space => {
                proof {
                    lemma_with_token(before, tokens@[i as int]@, 0);
                }
                stream_space(&mut stream);
            },
            Token::Push => {
                proof {
                    lemma_with_token(before, tokens@[i as int]@, 0);
                }
                stream_push(&mut stream);
            },
            Token::Line => {
                proof {
                    lemma_with_token(before, tokens@[i as int]@, 0);
                }
                stream_line(&mut stream);
            },
            Token::Indent => {
                if current >= 8000 {
                    proof {
                        if within_depth(all) {
                            lemma_depth_prefix(all, i + 1);
                        }
                    }
                    return Err(RenderError::TooDeep);
                }
                proof {
                    lemma_with_token(before, tokens@[i as int]@, 1);
                }
                stream_indent(&mut stream);
                current = current + 1;
            },
            Token::Unindent => {
                if current <= -8000 {
                    proof {
                        if within_depth(all) {
                            lemma_depth_prefix(all, i + 1);
                        }
                    }
                    return Err(RenderError::TooDeep);
                }
                proof {
                    lemma_with_token(before, tokens@[i as int]@, -1);
                }
                stream_unindent(&mut stream);
                current = current - 1;
            },
        }
        i = i + 1;
    }
    assert(all.take(tokens.len() as int) =~= all);
    proof {
        lemma_stream_quotes_whole(all);
    }
    match stream_format(&stream, if width <= 16 { width } else { 16 }) {
        Some(text) => Ok(text),
        None => vstd::pervasive::unreached(),
    }
}

/// A list that stays within the depth does so up to each of its places.
proof fn lemma_depth_prefix(tokens: Seq<TokenModel>, k: int)
    requires
        0 <= k <= tokens.len(),
        within_depth(tokens),
    ensures
        within_depth(tokens.take(k)),
    decreases tokens.len(),
{
    if k < tokens.len() {
        lemma_depth_prefix(tokens.drop_last(), k);
        assert(tokens.drop_last().take(k) =~= tokens.take(k));
    } else {
        assert(tokens.take(k) =~= tokens);
    }
}

/// The string literal of the target language with the content `text`, as
/// genco's formatter writes it.
pub fn quoted_text(text: &str) -> (literal: String)
    ensures
        literal@ == string_literal(text@),
{
    let mut stream = stream_new();
    proof {
        lemma_with_token(stream_items(stream), TokenModel::Quoted(text@), 0);
        lemma_quotes_with_token(stream_items(stream), TokenModel::Quoted(text@));
    }
    stream_quoted(&mut stream, text);
    match stream_text(&stream) {
        Some(literal) => literal,
        None => vstd::pervasive::unreached(),
    }
}

} // verus!
