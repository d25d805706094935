//! From a raw query to the ordered keywords that are embedded: the prompt
//! that asks a chat model for them, and the reading of its answer.

use vstd::prelude::*;
use vstd::string::*;

verus! {

/// What the prompt says before the query.
pub const PROMPT_HEAD: &'static str = "\n    用户输入了一个搜索查询：";

/// What the prompt says after the query.
pub const PROMPT_TAIL: &'static str =
    "。请识别并输出以下内容：\n    1. 主要的商品类别\n    2. 查询中的所有修饰词\n    不需要过程。比如输入 条纹衬衫 只需要输出:\n    衬衫,条纹\n    ";

/// The instruction sent to the chat model for the query `action`: the fixed
/// text with the query set into it.
pub fn formatted_prompt(action: &str) -> (prompt: String)
    ensures
        prompt@ == PROMPT_HEAD@ + action@ + PROMPT_TAIL@,
{
    let mut prompt = String::from_str(PROMPT_HEAD);
    prompt.append(action);
    prompt.append(PROMPT_TAIL);
    prompt
}

/// `at` is the position of the first space in `text`.
pub open spec fn first_space(text: Seq<char>, at: int) -> bool {
    &&& 0 <= at < text.len()
    &&& text[at] == ' '
    &&& forall|k: int| 0 <= k < at ==> text[k] != ' '
}

/// The pieces of `text` between its spaces, in order. A text with `n` spaces
/// has `n + 1` pieces; a piece is empty where two spaces meet and where the
/// text begins or ends with one.
pub open spec fn split_on_space(text: Seq<char>) -> Seq<Seq<char>>
    decreases text.len(),
{
    if exists|at: int| first_space(text, at) {
        let at = choose|at: int| first_space(text, at);
        seq![text.take(at)] + split_on_space(text.skip(at + 1))
    } else {
        seq![text]
    }
}

/// The texts of a sequence of strings.
pub open spec fn texts(words: Seq<String>) -> Seq<Seq<char>> {
    words.map_values(|w: String| w@)
}

/// A text whose first space is at `at` splits into what is before that space
/// and the pieces of what is after it.
proof fn lemma_split_at_first_space(text: Seq<char>, at: int)
    requires
        first_space(text, at),
    ensures
        split_on_space(text) == seq![text.take(at)] + split_on_space(text.skip(at + 1)),
{
    let chosen = choose|i: int| first_space(text, i);
    assert(first_space(text, chosen));
    assert(chosen == at);
}

/// A text without a space is its own single piece.
proof fn lemma_split_without_space(text: Seq<char>)
    requires
        forall|k: int| 0 <= k < text.len() ==> text[k] != ' ',
    ensures
        split_on_space(text) == seq![text],
{
    assert(!exists|at: int| first_space(text, at));
}

/// Splits `content` at every space.
pub fn split_words(content: &str) -> (words: Vec<String>)
    ensures
        texts(words@) == split_on_space(content@),
{
    let length = content.unicode_len();
    let mut words: Vec<String> = Vec::new();
    let mut start: usize = 0;
    let mut i: usize = 0;
    proof {
        assert(content@.skip(0) == content@);
        assert(texts(words@) + split_on_space(content@) == split_on_space(content@));
    }
    while i < length
        invariant
            0 <= start <= i <= length,
            length == content@.len(),
            forall|k: int| start <= k < i ==> content@[k] != ' ',
            split_on_space(content@) == texts(words@) + split_on_space(content@.skip(start as int)),
        decreases length - i,
    {
        if content.get_char(i) == ' ' {
            let word = String::from_str(content.substring_char(start, i));
            proof {
                let rest = content@.skip(start as int);
                assert(first_space(rest, i - start));
                lemma_split_at_first_space(rest, i - start);
                assert(rest.take(i - start) == content@.subrange(start as int, i as int));
                assert(rest.skip(i - start + 1) == content@.skip(i + 1));
                assert(texts(words@.push(word)) == texts(words@) + seq![word@]);
            }
            words.push(word);
            start = i + 1;
        }
        i += 1;
    }
    let word = String::from_str(content.substring_char(start, length));
    proof {
        let rest = content@.skip(start as int);
        lemma_split_without_space(rest);
        assert(rest == content@.subrange(start as int, length as int));
        assert(texts(words@.push(word)) == texts(words@) + seq![word@]);
    }
    words.push(word);
    words
}

/// The chat model that is asked for keywords.
pub const CHAT_MODEL: &'static str = "gpt-4o";

/// The most tokens that the chat model may answer with.
pub const MAX_ANSWER_TOKENS: u32 = 512;

/// What is sent to the chat model: one system message and the limits of the
/// answer.
#[derive(Debug, PartialEq)]
pub struct ChatRequest {
    pub model: String,
    pub system_message: String,
    pub max_tokens: u32,
}

/// The request that asks the chat model for the keywords of `source`.
pub fn extraction_request(source: &str) -> (request: ChatRequest)
    ensures
        request.model@ == CHAT_MODEL@,
        request.system_message@ == PROMPT_HEAD@ + source@ + PROMPT_TAIL@,
        request.max_tokens == MAX_ANSWER_TOKENS,
{
    ChatRequest {
        model: String::from_str(CHAT_MODEL),
        system_message: formatted_prompt(source),
        max_tokens: MAX_ANSWER_TOKENS,
    }
}

/// `at` is the position of the first choice that has any content.
pub open spec fn first_answer(contents: Seq<Option<String>>, at: int) -> bool {
    &&& 0 <= at < contents.len()
    &&& contents[at] is Some
    &&& forall|k: int| 0 <= k < at ==> contents[k] is None
}

/// The keywords that an answer of the chat model stands for: the pieces of
/// the first choice that has content, or, when no choice has any, the query
/// itself as the only keyword.
pub open spec fn keywords_of(source: Seq<char>, contents: Seq<Option<String>>) -> Seq<Seq<char>> {
    if exists|at: int| first_answer(contents, at) {
        let at = choose|at: int| first_answer(contents, at);
        split_on_space(contents[at]->0@)
    } else {
        seq![source]
    }
}

/// Reads the keywords out of the chat model's answer. `contents` holds the
/// content of each choice, in the order of the answer. The result is never
/// empty.
pub fn keywords_from_choices(source: String, contents: &Vec<Option<String>>) -> (keywords: Vec<
    String,
>)
    ensures
        texts(keywords@) == keywords_of(source@, contents@),
        keywords@.len() >= 1,
{
    let mut i: usize = 0;
    while i < contents.len()
        invariant
            0 <= i <= contents.len(),
            forall|k: int| 0 <= k < i ==> contents@[k] is None,
        decreases contents.len() - i,
    {
        match &contents[i] {
            Some(content) => {
                proof {
                    let chosen = choose|at: int| first_answer(contents@, at);
                    assert(first_answer(contents@, i as int));
                    assert(chosen == i);
                    lemma_split_is_not_empty(content@);
                }
                let keywords = split_words(content.as_str());
                assert(texts(keywords@).len() == keywords@.len());
                return keywords;
            },
            None => {},
        }
        i += 1;
    }
    let mut keywords: Vec<String> = Vec::new();
    proof {
        assert(!exists|at: int| first_answer(contents@, at));
        assert(texts(keywords@.push(source)) == seq![source@]);
    }
    keywords.push(source);
    keywords
}

/// The keywords that are embedded for `query`: those that were extracted,
/// or, when none was, the query itself as the only keyword.
pub open spec fn keywords_or_query(query: Seq<char>, extracted: Seq<Seq<char>>) -> Seq<
    Seq<char>,
> {
    if extracted.len() == 0 {
        seq![query]
    } else {
        extracted
    }
}

/// Falls back to the whole query when extraction gave no keyword.
pub fn with_fallback(query: String, extracted: Vec<String>) -> (keywords: Vec<String>)
    ensures
        texts(keywords@) == keywords_or_query(query@, texts(extracted@)),
        keywords@.len() >= 1,
{
    if extracted.len() == 0 {
        let mut keywords: Vec<String> = Vec::new();
        proof {
            assert(texts(keywords@.push(query)) == seq![query@]);
        }
        keywords.push(query);
        keywords
    } else {
        extracted
    }
}

/// Every text has at least one piece.
pub proof fn lemma_split_is_not_empty(text: Seq<char>)
    ensures
        split_on_space(text).len() >= 1,
    decreases text.len(),
{
    if exists|at: int| first_space(text, at) {
        let at = choose|at: int| first_space(text, at);
        lemma_split_is_not_empty(text.skip(at + 1));
    }
}

/// The pieces put together again, with one space between neighbours.
pub open spec fn join_with_spaces(pieces: Seq<Seq<char>>) -> Seq<char>
    decreases pieces.len(),
{
    if pieces.len() == 0 {
        Seq::<char>::empty()
    } else if pieces.len() == 1 {
        pieces[0]
    } else {
        pieces[0] + seq![' '] + join_with_spaces(pieces.skip(1))
    }
}

/// No piece of a text holds a space.
pub proof fn lemma_split_pieces_hold_no_space(text: Seq<char>)
    ensures
        forall|i: int, k: int|
            0 <= i < split_on_space(text).len() && 0 <= k < split_on_space(text)[i].len()
                ==> split_on_space(text)[i][k] != ' ',
    decreases text.len(),
{
    if exists|at: int| first_space(text, at) {
        let at = choose|at: int| first_space(text, at);
        let rest = split_on_space(text.skip(at + 1));
        lemma_split_pieces_hold_no_space(text.skip(at + 1));
        assert forall|i: int, k: int|
            0 <= i < split_on_space(text).len() && 0 <= k < split_on_space(
                text,
            )[i].len() implies split_on_space(text)[i][k] != ' ' by {
            if i == 0 {
                assert(split_on_space(text)[0] == text.take(at));
            } else {
                assert(split_on_space(text)[i] == rest[i - 1]);
            }
        }
    } else {
        assert forall|k: int| 0 <= k < text.len() implies text[k] != ' ' by {
            if text[k] == ' ' {
                lemma_first_space_exists(text, k);
            }
        }
    }
}

/// Putting the pieces of a text together again gives the text.
pub proof fn lemma_split_joins_back(text: Seq<char>)
    ensures
        join_with_spaces(split_on_space(text)) == text,
    decreases text.len(),
{
    if exists|at: int| first_space(text, at) {
        let at = choose|at: int| first_space(text, at);
        let rest = text.skip(at + 1);
        lemma_split_joins_back(rest);
        lemma_split_is_not_empty(rest);
        let pieces = split_on_space(text);
        assert(pieces.skip(1) == split_on_space(rest));
        assert(text.take(at) + seq![' '] + rest == text);
    }
}

/// A text that holds a space has a first space.
proof fn lemma_first_space_exists(text: Seq<char>, space: int)
    requires
        0 <= space < text.len(),
        text[space] == ' ',
    ensures
        exists|at: int| first_space(text, at),
    decreases space,
{
    if forall|k: int| 0 <= k < space ==> text[k] != ' ' {
        assert(first_space(text, space));
    } else {
        let earlier = choose|k: int| 0 <= k < space && text[k] == ' ';
        lemma_first_space_exists(text, earlier);
    }
}

} // verus!
