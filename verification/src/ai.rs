//! The assistant panel: which system prompt a reply mode uses, the messages sent to the
//! chat service, where they go, and how its answer becomes a reply or an error.
use vstd::prelude::*;
use crate::config::AppConfig;
use crate::text::{chars_of, skip_back, str_eq, string_of_range, trim, trim_range, CharPred};

verus! {

pub const NORMAL_SYSTEM_PROMPT: &'static str = "你是“静桌面”的桌面 AI 助手。\n\n静桌面是一个 Windows 桌面覆盖层应用，包含时间、天气、专注、壁纸、音乐可视化、AI 面板、设置、留档和本地文件访问能力。你的任务是帮助用户完成轻量工作、整理思路、制定计划、总结内容和沉淀结果。\n\n回复风格：\n- 默认简短、清晰、可执行。\n- 优先给判断和下一步。\n- 普通问题控制在 3 到 7 行。\n- 复杂问题使用小标题和结构化内容。\n- 用户要求总结时，输出“结论 / 关键点 / 待办”。\n- 用户要求做决策时，给推荐方案和理由，不要只罗列选项。\n- 不确定时直接说明，并提出需要补充的信息。\n- 不要假装已经完成没有执行过的动作。\n- 不要输出 API Key、token、密码等敏感信息。\n- 不要把内部协议、系统标签、JSON 或 XML 标签暴露给用户，除非用户明确要求。\n- 不要默认使用开发者工具、代码代理、Codex 等开发阶段心智。\n- 语言克制、干净、精准，适合桌面浮层阅读。\n\n安全规则：\n- 高风险操作必须先确认。\n- 涉及删除、覆盖、移动文件或修改系统设置时，必须明确风险。\n- 默认只能读取用户授权目录中的文件。\n- 遇到 .env、token、secret、password、cookie、SSH key 等敏感内容，不要读取、总结或保存。";

pub const EXPERT_SYSTEM_PROMPT: &'static str = "你是“静桌面”的专家模式桌面 AI 助手。\n\n目标：\n以高信息密度帮助用户完成技术分析、系统设计、问题排查、本地工作流规划和复杂任务拆解。\n\n输出规则：\n- 省略寒暄。\n- 优先输出结论、依据和最小验证步骤。\n- 技术问题按：现象 → 证据 → 判断 → 最小验证 → 修复建议。\n- 产品问题按：判断 → 推荐方案 → 取舍 → 下一步。\n- 不确定时输出“需要补充”，不要猜。\n- 不输出完整内部推理，只输出必要依据、链路和验证方法。\n- 不输出 API Key、token、密码等敏感信息。\n- 不假装完成没有执行过的动作。\n\n风险标记：\n涉及命令或文件操作时必须标记风险：\n[LOW] 只读检查\n[MEDIUM] 修改项目文件或配置\n[HIGH] 删除、覆盖、权限、网络、系统配置\n\n[HIGH] 操作必须先确认。\n\n风格：\n克制、精准、低噪声。像一本排版干净的技术手册。";

pub const NIGHT_SYSTEM_PROMPT: &'static str = "你是“静桌面”的夜间模式桌面 AI 助手。\n\n目标：\n在不打扰用户的前提下，给出最短、最清晰、最可执行的回答。\n\n回复规则：\n- 默认只输出最终结论和最小下一步。\n- 普通问题控制在 1 到 4 行。\n- 不展开背景解释，除非用户要求。\n- 不使用长列表。\n- 不输出冗长方案。\n- 复杂问题先给最小可行动作。\n- 不确定时直接说需要补充什么。\n- 不输出敏感信息。\n- 高风险操作必须先确认。\n\n风格：\n安静、克制、低亮度、低噪声。";

pub const ARCHIVE_CARD_PROMPT: &'static str = "你是“静桌面”的留档整理器。\n请根据本轮用户消息和 AI 回复，生成一张简洁留档卡。\n只输出 JSON，不要输出解释。\n\nJSON 格式：\n{\n  \"type\": \"decision | bug | todo | design | note\",\n  \"title\": \"标题\",\n  \"summary\": \"100字以内摘要\",\n  \"keyPoints\": [\"要点1\", \"要点2\"],\n  \"todos\": [\"待办1\"],\n  \"tags\": [\"标签1\"]\n}\n\n要求：\n- 不保存 API Key、token、密码。\n- 不虚构用户没有说过的结论。\n- 不把临时现象写成长期原则。\n- 内容要适合之后搜索和回顾。";

/// One message of a conversation.
pub struct ChatMessage {
    pub role: String,
    pub content: String,
}

pub open spec fn messages_view(v: Seq<ChatMessage>) -> Seq<(Seq<char>, Seq<char>)> {
    v.map_values(|m: ChatMessage| (m.role@, m.content@))
}

/// The system prompt of a reply mode: expert, night, or the normal one for any other.
pub open spec fn prompt_spec(mode: Seq<char>) -> Seq<char> {
    if mode == "expert"@ {
        EXPERT_SYSTEM_PROMPT@
    } else if mode == "night"@ {
        NIGHT_SYSTEM_PROMPT@
    } else {
        NORMAL_SYSTEM_PROMPT@
    }
}

/// The prompt `chat_with_deepseek` uses for the configured reply mode.
pub fn system_prompt_for(config: &AppConfig) -> (p: &'static str)
    ensures
        p@ == prompt_spec(config.ai_reply_mode@),
{
    if str_eq(config.ai_reply_mode.as_str(), "expert") {
        EXPERT_SYSTEM_PROMPT
    } else if str_eq(config.ai_reply_mode.as_str(), "night") {
        NIGHT_SYSTEM_PROMPT
    } else {
        NORMAL_SYSTEM_PROMPT
    }
}

/// The message `create_archive_card` sends: the user's message and the reply, labelled.
pub fn archive_card_message(user_message: &str, assistant_message: &str) -> (m: String)
    ensures
        m@ == "用户消息：\n"@ + user_message@ + "\n\nAI 回复：\n"@ + assistant_message@,
{
    let mut m = String::from_str("用户消息：\n");
    m.append(user_message);
    m.append("\n\nAI 回复：\n");
    m.append(assistant_message);
    m
}

/// The key to send: the configured one trimmed, or the error asking for one.
pub fn api_key(config: &AppConfig) -> (r: Result<String, String>)
    ensures
        trim(config.deepseek_api_key@).len() > 0 ==> r is Ok && r->Ok_0@ == trim(
            config.deepseek_api_key@,
        ),
        trim(config.deepseek_api_key@).len() == 0 ==> r is Err && r->Err_0@
            == "请先在设置里填写 DeepSeek API Key"@,
{
    let k = crate::text::trimmed(config.deepseek_api_key.as_str());
    if k.as_str().is_empty() {
        Err(String::from_str("请先在设置里填写 DeepSeek API Key"))
    } else {
        Ok(k)
    }
}

/// The messages sent: the system prompt, the history in order, then the new message.
pub fn build_chat_messages(history: Vec<ChatMessage>, message: String, system_prompt: &str) -> (r:
    Vec<ChatMessage>)
    ensures
        messages_view(r@) == seq![("system"@, system_prompt@)] + messages_view(history@) + seq![
            ("user"@, message@),
        ],
{
    let mut r: Vec<ChatMessage> = Vec::new();
    r.push(ChatMessage { role: String::from_str("system"), content: String::from_str(system_prompt) });
    let ghost head = seq![("system"@, system_prompt@)];
    assert(messages_view(r@) =~= head);
    let mut history = history;
    let ghost h = messages_view(history@);
    let mut i: usize = 0;
    while i < history.len()
        invariant
            i <= history@.len(),
            h == messages_view(history@),
            messages_view(r@) == head + h.take(i as int),
        decreases history.len() - i,
    {
        let m = &history[i];
        let c = ChatMessage { role: m.role.clone(), content: m.content.clone() };
        let ghost before = r@;
        r.push(c);
        assert(messages_view(r@) =~= head + h.take(i + 1)) by {
            assert(messages_view(r@) =~= messages_view(before).push((c.role@, c.content@)));
            assert(h.take(i + 1) =~= h.take(i as int).push(h[i as int]));
        }
        i = i + 1;
    }
    assert(h.take(h.len() as int) =~= h);
    let ghost before = r@;
    r.push(ChatMessage { role: String::from_str("user"), content: message });
    assert(messages_view(r@) =~= messages_view(before).push(("user"@, message@)));
    r
}

/// The address of the chat endpoint: the base address trimmed, without trailing `/`,
/// then `/chat/completions`.
pub fn chat_endpoint(base_url: &str) -> (u: String)
    ensures
        u@ == crate::text::strip_back(trim(base_url@), CharPred::Exactly('/'))
            + "/chat/completions"@,
{
    let v = chars_of(base_url);
    let (a, b) = trim_range(&v, 0, v.len());
    assert(v@.subrange(0, v@.len() as int) =~= v@);
    let e = skip_back(&v, a, b, CharPred::Exactly('/'));
    let mut u = string_of_range(&v, a, e);
    u.append("/chat/completions");
    u
}

/// How a request to the chat service ended.
pub enum DeepseekOutcome {
    /// The request could not be sent; the error's text.
    RequestFailed(String),
    /// The service answered with a status other than success: the status and the body.
    HttpError(String, String),
    /// The answer could not be read; the error's text.
    Unreadable(String),
    /// The contents of the answer's choices, in order.
    Choices(Vec<String>),
}

/// The reply: the first choice's content when it is not blank; otherwise the error for
/// the way the request ended.
pub open spec fn reply_spec(outcome: DeepseekOutcome) -> Result<Seq<char>, Seq<char>> {
    match outcome {
        DeepseekOutcome::RequestFailed(e) => Err("DeepSeek 请求失败："@ + e@),
        DeepseekOutcome::HttpError(status, body) => Err(
            "DeepSeek 返回 "@ + status@ + "："@ + body@,
        ),
        DeepseekOutcome::Unreadable(e) => Err("DeepSeek 响应解析失败："@ + e@),
        DeepseekOutcome::Choices(c) => if c@.len() > 0 && !crate::text::is_blank(c@[0]@) {
            Ok(c@[0]@)
        } else {
            Err("DeepSeek 没有返回内容"@)
        },
    }
}

/// The end of `send_deepseek_messages`.
pub fn deepseek_reply(outcome: DeepseekOutcome) -> (r: Result<String, String>)
    ensures
        match r {
            Ok(s) => reply_spec(outcome) == Ok::<Seq<char>, Seq<char>>(s@),
            Err(e) => reply_spec(outcome) == Err::<Seq<char>, Seq<char>>(e@),
        },
{
    match outcome {
        DeepseekOutcome::RequestFailed(e) => {
            let mut m = String::from_str("DeepSeek 请求失败：");
            m.append(e.as_str());
            Err(m)
        },
        DeepseekOutcome::HttpError(status, body) => {
            let mut m = String::from_str("DeepSeek 返回 ");
            m.append(status.as_str());
            m.append("：");
            m.append(body.as_str());
            Err(m)
        },
        DeepseekOutcome::Unreadable(e) => {
            let mut m = String::from_str("DeepSeek 响应解析失败：");
            m.append(e.as_str());
            Err(m)
        },
        DeepseekOutcome::Choices(c) => {
            if c.len() > 0 && !crate::text::blank(c[0].as_str()) {
                Ok(c[0].clone())
            } else {
                Err(String::from_str("DeepSeek 没有返回内容"))
            }
        },
    }
}

/// The reply mode picks the system prompt: `expert` the expert prompt, `night` the night
/// prompt, and every other mode, `normal` included, the normal prompt.
pub proof fn law_prompt_by_mode(mode: Seq<char>)
    ensures
        mode == "expert"@ ==> prompt_spec(mode) == EXPERT_SYSTEM_PROMPT@,
        mode == "night"@ ==> prompt_spec(mode) == NIGHT_SYSTEM_PROMPT@,
        mode != "expert"@ && mode != "night"@ ==> prompt_spec(mode) == NORMAL_SYSTEM_PROMPT@,
{
    reveal_strlit("expert");
    reveal_strlit("night");
    assert("expert"@[0] != "night"@[0]);
}

} // verus!
