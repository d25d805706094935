use vector_search::keywords::{
    extraction_request, formatted_prompt, keywords_from_choices, split_words, with_fallback,
    CHAT_MODEL, MAX_ANSWER_TOKENS, PROMPT_HEAD, PROMPT_TAIL,
};

fn owned(words: &[&str]) -> Vec<String> {
    words.iter().map(|w| w.to_string()).collect()
}

#[test]
fn prompt_sets_the_query_into_the_fixed_text() {
    let expected = format!(
        r"
    用户输入了一个搜索查询：{}。请识别并输出以下内容：
    1. 主要的商品类别
    2. 查询中的所有修饰词
    不需要过程。比如输入 条纹衬衫 只需要输出:
    衬衫,条纹
    ",
        "striped shirt"
    );
    assert_eq!(formatted_prompt("striped shirt"), expected);
}

#[test]
fn prompt_of_empty_query_is_head_and_tail() {
    assert_eq!(formatted_prompt(""), format!("{}{}", PROMPT_HEAD, PROMPT_TAIL));
}

#[test]
fn prompt_keeps_a_query_that_is_not_ascii() {
    let prompt = formatted_prompt("条纹衬衫");
    assert!(prompt.starts_with("\n    用户输入了一个搜索查询：条纹衬衫。"));
    assert!(prompt.ends_with("衬衫,条纹\n    "));
}

#[test]
fn extraction_request_names_model_and_limit() {
    let request = extraction_request("red shoes");
    assert_eq!(request.model, "gpt-4o");
    assert_eq!(request.model, CHAT_MODEL);
    assert_eq!(request.max_tokens, 512);
    assert_eq!(request.max_tokens, MAX_ANSWER_TOKENS);
    assert_eq!(request.system_message, formatted_prompt("red shoes"));
}

#[test]
fn split_two_words() {
    assert_eq!(split_words("shirt striped"), owned(&["shirt", "striped"]));
}

#[test]
fn split_of_empty_text_is_one_empty_piece() {
    assert_eq!(split_words(""), owned(&[""]));
}

#[test]
fn split_without_space_is_the_text() {
    assert_eq!(split_words("衬衫,条纹"), owned(&["衬衫,条纹"]));
}

#[test]
fn split_keeps_empty_pieces() {
    assert_eq!(split_words(" a  b "), owned(&["", "a", "", "b", ""]));
    assert_eq!(split_words(" "), owned(&["", ""]));
}

#[test]
fn split_agrees_with_the_standard_library() {
    let samples = [
        "",
        " ",
        "  ",
        "a",
        "a b",
        "a b c",
        " leading",
        "trailing ",
        "two  spaces",
        "衬衫 条纹",
        "tab\tis no space",
        "line\nbreak is no space",
        "émoji 🙂 and ünïcode",
    ];
    for sample in samples {
        let expected: Vec<String> = sample.split(' ').map(|w| w.to_string()).collect();
        assert_eq!(split_words(sample), expected);
        assert_eq!(split_words(sample).join(" "), sample);
    }
}

#[test]
fn keywords_come_from_the_first_choice_with_content() {
    let contents = vec![None, Some("shirt striped".to_string()), Some("other".to_string())];
    assert_eq!(
        keywords_from_choices("striped shirt".to_string(), &contents),
        owned(&["shirt", "striped"])
    );
}

#[test]
fn keywords_fall_back_to_the_query_without_content() {
    let contents: Vec<Option<String>> = vec![None, None];
    assert_eq!(
        keywords_from_choices("striped shirt".to_string(), &contents),
        owned(&["striped shirt"])
    );
}

#[test]
fn keywords_fall_back_to_the_query_without_choices() {
    let contents: Vec<Option<String>> = Vec::new();
    assert_eq!(
        keywords_from_choices("striped shirt".to_string(), &contents),
        owned(&["striped shirt"])
    );
}

#[test]
fn empty_content_is_one_empty_keyword() {
    let contents = vec![Some(String::new())];
    assert_eq!(keywords_from_choices("q".to_string(), &contents), owned(&[""]));
}

#[test]
fn fallback_applies_to_no_keywords_only() {
    assert_eq!(with_fallback("striped shirt".to_string(), Vec::new()), owned(&["striped shirt"]));
    assert_eq!(
        with_fallback("striped shirt".to_string(), owned(&["shirt", "striped"])),
        owned(&["shirt", "striped"])
    );
    assert_eq!(with_fallback("q".to_string(), owned(&[""])), owned(&[""]));
}
