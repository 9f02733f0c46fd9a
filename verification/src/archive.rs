//! The conversation archive: day files of messages and cards, and the summary that
//! compacts one day.
use vstd::prelude::*;
use crate::text::{blank, chars_of, decimal, is_blank, is_digit, push_decimal};

verus! {

/// One archived chat message.
pub struct ArchiveMessage {
    pub id: String,
    pub session_id: String,
    pub role: String,
    pub content: String,
    pub created_at: String,
}

/// One archive card distilled from a conversation.
pub struct ArchiveCard {
    pub id: String,
    pub session_id: String,
    pub card_type: String,
    pub title: String,
    pub summary: String,
    pub key_points: Vec<String>,
    pub todos: Vec<String>,
    pub tags: Vec<String>,
    pub created_at: String,
}

/// What compacting a day produced.
pub struct MemoryCompactResult {
    pub date: String,
    pub summary_path: String,
    pub message_count: usize,
    pub card_count: usize,
}

/// The text a new project memory file starts with.
pub const PROJECT_MEMORY_TEMPLATE: &'static str = "# 静桌面项目记忆\n\n## 产品定位\n\n## 设计原则\n\n## 稳定结论\n\n## 待确认问题\n";

pub open spec fn is_date_char(c: char) -> bool {
    is_digit(c) || c == '-'
}

/// The day a record is filed under: the first ten characters of its creation time when
/// they are all digits or dashes, else `unknown-date`.
pub open spec fn day_spec(created_at: Seq<char>) -> Seq<char> {
    if created_at.len() >= 10 && forall|i: int| 0 <= i < 10 ==> is_date_char(#[trigger] created_at[i]) {
        created_at.take(10)
    } else {
        "unknown-date"@
    }
}

/// The day a record is filed under, as [`day_spec`] says.
pub fn day_from_created_at(created_at: &str) -> (day: String)
    ensures
        day@ == day_spec(created_at@),
{
    let v = chars_of(created_at);
    if v.len() < 10 {
        return String::from_str("unknown-date");
    }
    let mut i: usize = 0;
    while i < 10
        invariant
            i <= 10 <= v@.len(),
            v@ == created_at@,
            forall|j: int| 0 <= j < i ==> is_date_char(#[trigger] v@[j]),
        decreases 10 - i,
    {
        let c = v[i];
        if !(('0' <= c && c <= '9') || c == '-') {
            return String::from_str("unknown-date");
        }
        i = i + 1;
    }
    crate::text::string_of_range(&v, 0, 10)
}

/// The name of a day file: the day followed by `.jsonl`.
pub fn jsonl_file_name(day: &str) -> (name: String)
    ensures
        name@ == day@ + ".jsonl"@,
{
    let mut n = String::from_str(day);
    n.append(".jsonl");
    n
}

/// The name of a day's compacted summary: the day followed by `.summary.md`.
pub fn summary_file_name(day: &str) -> (name: String)
    ensures
        name@ == day@ + ".summary.md"@,
{
    let mut n = String::from_str(day);
    n.append(".summary.md");
    n
}

/// The archive folder that holds the day files of messages.
pub const MESSAGES_DIR: &'static str = "messages";

/// The archive folder that holds the day files of cards.
pub const CARDS_DIR: &'static str = "cards";

/// The archive folder that holds the project memory.
pub const MEMORY_DIR: &'static str = "memory";

/// The archive folder that holds the compacted summaries.
pub const COMPACTED_DIR: &'static str = "compacted";

/// The project memory file, in the memory folder.
pub const PROJECT_MEMORY_FILE: &'static str = "project-memory.md";

/// The day `archive_list_cards` reads when none is given.
pub fn list_date(date: Option<String>) -> (d: String)
    ensures
        d@ == match date {
            Some(s) => s@,
            None => "unknown-date"@,
        },
{
    match date {
        Some(s) => s,
        None => String::from_str("unknown-date"),
    }
}

/// The lines kept from a day file: those that are not blank, in order.
pub open spec fn nonblank_spec(lines: Seq<Seq<char>>) -> Seq<Seq<char>>
    decreases lines.len(),
{
    if lines.len() == 0 {
        lines
    } else if is_blank(lines.last()) {
        nonblank_spec(lines.drop_last())
    } else {
        nonblank_spec(lines.drop_last()).push(lines.last())
    }
}

pub open spec fn lines_view(v: Seq<String>) -> Seq<Seq<char>> {
    v.map_values(|s: String| s@)
}

/// The filter of `read_jsonl_lines`: the lines that are not blank.
pub fn nonblank_lines(lines: Vec<String>) -> (r: Vec<String>)
    ensures
        lines_view(r@) == nonblank_spec(lines_view(lines@)),
{
    let mut out: Vec<String> = Vec::new();
    let mut i: usize = 0;
    while i < lines.len()
        invariant
            i <= lines@.len(),
            lines_view(out@) == nonblank_spec(lines_view(lines@).take(i as int)),
        decreases lines.len() - i,
    {
        let ghost t = lines_view(lines@).take(i + 1);
        assert(t.drop_last() =~= lines_view(lines@).take(i as int));
        assert(t.last() == lines@[i as int]@);
        if !blank(lines[i].as_str()) {
            let l = lines[i].clone();
            let ghost before = out@;
            out.push(l);
            assert(lines_view(out@) =~= lines_view(before).push(l@));
        }
        i = i + 1;
    }
    assert(lines_view(lines@).take(lines@.len() as int) =~= lines_view(lines@));
    out
}

/// The header of a day's summary, down to the card list.
pub open spec fn summary_header(date: Seq<char>, message_count: nat, card_count: nat) -> Seq<char> {
    "# 静桌面留档压缩摘要 "@ + date + "\n\n"@ + "## 范围\n\n"@
        + "- 只读取应用留档目录中的 messages/cards JSONL。\n"@
        + "- 未修改原始 messages/cards 文件。\n"@
        + "- 未读取、修改或删除任何用户授权目录中的原始文件。\n\n"@ + "## 统计\n\n"@
        + "- 原始消息："@ + decimal(message_count) + " 条\n"@ + "- 留档卡片："@ + decimal(
        card_count,
    ) + " 条\n\n"@ + "## 卡片摘要\n\n"@
}

/// One card's line in the summary: `- [type] title：summary`.
pub open spec fn card_line(card: ArchiveCard) -> Seq<char> {
    "- ["@ + card.card_type@ + "] "@ + card.title@ + "："@ + card.summary@ + "\n"@
}

pub open spec fn card_lines(cards: Seq<ArchiveCard>) -> Seq<char>
    decreases cards.len(),
{
    if cards.len() == 0 {
        Seq::empty()
    } else {
        card_lines(cards.drop_last()) + card_line(cards.last())
    }
}

/// The summary `memory_compact_day` writes: the header with the day's message and card
/// counts, then a line for each card that could be read, in order.
pub open spec fn summary_spec(
    date: Seq<char>,
    message_count: nat,
    card_count: nat,
    cards: Seq<ArchiveCard>,
) -> Seq<char> {
    summary_header(date, message_count, card_count) + card_lines(cards)
}

/// The summary text of `memory_compact_day`: `message_count` and `card_count` are the
/// numbers of non-blank lines of the day's files, `cards` the cards among them that
/// could be read.
pub fn build_compact_summary(
    date: &str,
    message_count: usize,
    card_count: usize,
    cards: &Vec<ArchiveCard>,
) -> (s: String)
    ensures
        s@ == summary_spec(date@, message_count as nat, card_count as nat, cards@),
{
    let mut s = String::new();
    s.append("# 静桌面留档压缩摘要 ");
    s.append(date);
    s.append("\n\n");
    s.append("## 范围\n\n");
    s.append("- 只读取应用留档目录中的 messages/cards JSONL。\n");
    s.append("- 未修改原始 messages/cards 文件。\n");
    s.append("- 未读取、修改或删除任何用户授权目录中的原始文件。\n\n");
    s.append("## 统计\n\n");
    s.append("- 原始消息：");
    push_decimal(&mut s, message_count as u64);
    s.append(" 条\n");
    s.append("- 留档卡片：");
    push_decimal(&mut s, card_count as u64);
    s.append(" 条\n\n");
    s.append("## 卡片摘要\n\n");
    assert(s@ =~= summary_header(date@, message_count as nat, card_count as nat));
    let ghost head = s@;
    let mut i: usize = 0;
    while i < cards.len()
        invariant
            i <= cards@.len(),
            head == summary_header(date@, message_count as nat, card_count as nat),
            s@ == head + card_lines(cards@.take(i as int)),
        decreases cards.len() - i,
    {
        let card = &cards[i];
        s.append("- [");
        s.append(card.card_type.as_str());
        s.append("] ");
        s.append(card.title.as_str());
        s.append("：");
        s.append(card.summary.as_str());
        s.append("\n");
        let ghost t = cards@.take(i + 1);
        assert(t.drop_last() =~= cards@.take(i as int));
        assert(t.last() == cards@[i as int]);
        assert(s@ =~= head + card_lines(cards@.take(i + 1)));
        i = i + 1;
    }
    assert(cards@.take(cards@.len() as int) =~= cards@);
    s
}

/// A record's day is itself filed under the same day: the day of a day is that day.
pub proof fn law_day_is_stable(created_at: Seq<char>)
    ensures
        day_spec(day_spec(created_at)) == day_spec(created_at),
        day_spec(created_at).len() == 10 || day_spec(created_at) == "unknown-date"@,
{
    reveal_strlit("unknown-date");
    let d = day_spec(created_at);
    if created_at.len() >= 10 && forall|i: int| 0 <= i < 10 ==> is_date_char(#[trigger] created_at[i]) {
        assert(d.take(10) =~= d);
        assert forall|i: int| 0 <= i < 10 implies is_date_char(#[trigger] d[i]) by {
            assert(d[i] == created_at[i]);
        }
    } else {
        assert(!is_date_char(d[1]));
    }
}

} // verus!
