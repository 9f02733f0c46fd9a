use jingzhuo::ai::{
    api_key, archive_card_message, build_chat_messages, chat_endpoint, deepseek_reply,
    system_prompt_for, ChatMessage, DeepseekOutcome, EXPERT_SYSTEM_PROMPT, NIGHT_SYSTEM_PROMPT,
    NORMAL_SYSTEM_PROMPT,
};
use jingzhuo::config::AppConfig;

fn msg(role: &str, content: &str) -> ChatMessage {
    ChatMessage { role: role.to_string(), content: content.to_string() }
}

#[test]
fn prompt_follows_reply_mode() {
    let mut c = AppConfig::default();
    assert_eq!(system_prompt_for(&c), NORMAL_SYSTEM_PROMPT);
    c.ai_reply_mode = "expert".to_string();
    assert_eq!(system_prompt_for(&c), EXPERT_SYSTEM_PROMPT);
    c.ai_reply_mode = "night".to_string();
    assert_eq!(system_prompt_for(&c), NIGHT_SYSTEM_PROMPT);
    c.ai_reply_mode = "Night".to_string();
    assert_eq!(system_prompt_for(&c), NORMAL_SYSTEM_PROMPT);
}

#[test]
fn card_message_labels_both_sides() {
    assert_eq!(
        archive_card_message("问", "答"),
        "用户消息：\n问\n\nAI 回复：\n答"
    );
}

#[test]
fn key_is_trimmed_or_missing() {
    let mut c = AppConfig::default();
    assert_eq!(api_key(&c), Err("请先在设置里填写 DeepSeek API Key".to_string()));
    c.deepseek_api_key = "  sk-abc \n".to_string();
    assert_eq!(api_key(&c), Ok("sk-abc".to_string()));
}

#[test]
fn messages_are_system_history_user() {
    let history = vec![msg("user", "a"), msg("assistant", "b")];
    let r = build_chat_messages(history, "c".to_string(), "SYS");
    let pairs: Vec<(String, String)> = r.into_iter().map(|m| (m.role, m.content)).collect();
    assert_eq!(
        pairs,
        vec![
            ("system".to_string(), "SYS".to_string()),
            ("user".to_string(), "a".to_string()),
            ("assistant".to_string(), "b".to_string()),
            ("user".to_string(), "c".to_string()),
        ]
    );
}

#[test]
fn endpoint_drops_trailing_slashes() {
    assert_eq!(chat_endpoint("https://api.deepseek.com"), "https://api.deepseek.com/chat/completions");
    assert_eq!(chat_endpoint(" https://x.io/v1// "), "https://x.io/v1/chat/completions");
    assert_eq!(chat_endpoint(""), "/chat/completions");
}

#[test]
fn replies_and_errors() {
    assert_eq!(
        deepseek_reply(DeepseekOutcome::Choices(vec!["好的".to_string(), "x".to_string()])),
        Ok("好的".to_string())
    );
    assert_eq!(
        deepseek_reply(DeepseekOutcome::Choices(vec!["  ".to_string()])),
        Err("DeepSeek 没有返回内容".to_string())
    );
    assert_eq!(
        deepseek_reply(DeepseekOutcome::Choices(vec![])),
        Err("DeepSeek 没有返回内容".to_string())
    );
    assert_eq!(
        deepseek_reply(DeepseekOutcome::RequestFailed("dns".to_string())),
        Err("DeepSeek 请求失败：dns".to_string())
    );
    assert_eq!(
        deepseek_reply(DeepseekOutcome::HttpError("401 Unauthorized".to_string(), "bad key".to_string())),
        Err("DeepSeek 返回 401 Unauthorized：bad key".to_string())
    );
    assert_eq!(
        deepseek_reply(DeepseekOutcome::Unreadable("eof".to_string())),
        Err("DeepSeek 响应解析失败：eof".to_string())
    );
}
