use qwen_engine::text::clean_qwen_asr_output;

#[test]
fn test_clean_qwen_asr_output_with_full_artifact() {
    let input = "onghua<asr_text>这是中文转写结果";
    assert_eq!(clean_qwen_asr_output(input), "这是中文转写结果");
}

#[test]
fn test_clean_qwen_asr_output_with_just_tag() {
    let input = "<asr_text>This is English";
    assert_eq!(clean_qwen_asr_output(input), "This is English");
}

#[test]
fn test_clean_qwen_asr_output_with_onghua_only() {
    let input = "onghuaSome text here";
    assert_eq!(clean_qwen_asr_output(input), "Some text here");
}

#[test]
fn test_clean_qwen_asr_output_clean_text() {
    let input = "这是干净的转写结果";
    assert_eq!(clean_qwen_asr_output(input), "这是干净的转写结果");
}

#[test]
fn test_clean_qwen_asr_output_with_whitespace() {
    let input = "  onghua<asr_text>  中文结果  ";
    assert_eq!(clean_qwen_asr_output(input), "中文结果");
}

#[test]
fn clean_keeps_text_before_a_tag_without_artifact() {
    assert_eq!(clean_qwen_asr_output("abc<asr_text> def"), "abc def");
}

#[test]
fn clean_removes_truncated_artifact_before_tag() {
    assert_eq!(clean_qwen_asr_output("xnghua<asr_text>  hello "), "hello");
}

#[test]
fn clean_removes_truncated_artifact_prefix() {
    assert_eq!(clean_qwen_asr_output("nghua  hello"), "hello");
}

#[test]
fn clean_removes_leading_asr_like_tag() {
    assert_eq!(clean_qwen_asr_output("<asr_lang> hi there"), "hi there");
    assert_eq!(clean_qwen_asr_output("<|text|>done"), "done");
}

#[test]
fn clean_keeps_other_leading_tags() {
    assert_eq!(clean_qwen_asr_output("<b>bold"), "<b>bold");
    assert_eq!(clean_qwen_asr_output("<unclosed"), "<unclosed");
}

#[test]
fn clean_only_first_tag_is_handled() {
    assert_eq!(clean_qwen_asr_output("a<asr_text>b<asr_text>c"), "ab<asr_text>c");
}

#[test]
fn clean_trims_unicode_whitespace() {
    assert_eq!(clean_qwen_asr_output("\u{3000}\t hello\u{A0}\n"), "hello");
    assert_eq!(clean_qwen_asr_output("   "), "");
    assert_eq!(clean_qwen_asr_output(""), "");
}

#[test]
fn clean_removes_artifacts_after_leading_whitespace() {
    assert_eq!(clean_qwen_asr_output("\u{2003}\tnghua<asr_text>\n text \u{3000}"), "text");
    assert_eq!(clean_qwen_asr_output(" onghua \u{85}body"), "body");
}

#[test]
fn clean_removes_marker_with_language() {
    assert_eq!(clean_qwen_asr_output("onghua<asr_text|zh>你好"), "你好");
    assert_eq!(clean_qwen_asr_output(" nghua<asr_text|en> hello "), "hello");
    assert_eq!(clean_qwen_asr_output("<asr_text|en>hello"), "hello");
    assert_eq!(clean_qwen_asr_output("ab<asr_text|en> cd"), "ab cd");
}

#[test]
fn clean_marker_without_closing_bracket_is_kept() {
    assert_eq!(clean_qwen_asr_output("onghua<asr_text|zh"), "<asr_text|zh");
    assert_eq!(clean_qwen_asr_output("x<asr_text"), "x<asr_text");
}

#[test]
fn clean_output_is_never_longer_than_trimmed_input() {
    for input in ["a<asr_text>b", "  x  ", "<text>y", "onghua", "<asr_text>", " 中<asr_text|zh>文 ", "\u{3000}é "] {
        let out = clean_qwen_asr_output(input);
        assert!(out.len() <= input.trim().len());
        assert!(out.chars().count() <= input.trim().chars().count());
    }
}
