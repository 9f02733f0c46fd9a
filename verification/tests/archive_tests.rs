use jingzhuo::archive::{
    build_compact_summary, day_from_created_at, jsonl_file_name, list_date, nonblank_lines,
    ArchiveCard, MemoryCompactResult, PROJECT_MEMORY_TEMPLATE,
};

fn card(card_type: &str, title: &str, summary: &str) -> ArchiveCard {
    ArchiveCard {
        id: "c1".to_string(),
        session_id: "s1".to_string(),
        card_type: card_type.to_string(),
        title: title.to_string(),
        summary: summary.to_string(),
        key_points: vec![],
        todos: vec![],
        tags: vec![],
        created_at: "2024-05-01T10:00:00Z".to_string(),
    }
}

#[test]
fn day_is_the_date_prefix() {
    assert_eq!(day_from_created_at("2024-05-01T10:00:00Z"), "2024-05-01");
    assert_eq!(day_from_created_at("2024-05-01"), "2024-05-01");
    assert_eq!(day_from_created_at("1714557600Z"), "1714557600");
    assert_eq!(day_from_created_at("2024/05/01T10"), "unknown-date");
    assert_eq!(day_from_created_at("2024-05-0"), "unknown-date");
    assert_eq!(day_from_created_at("二〇二四年五月一日上午"), "unknown-date");
    assert_eq!(day_from_created_at(""), "unknown-date");
}

#[test]
fn day_of_a_day_is_itself() {
    for raw in ["2024-05-01T10:00:00Z", "garbage", "12345678901234"] {
        let d = day_from_created_at(raw);
        assert_eq!(day_from_created_at(&d), d);
    }
}

#[test]
fn day_files_and_list_date() {
    assert_eq!(jsonl_file_name("2024-05-01"), "2024-05-01.jsonl");
    assert_eq!(list_date(Some("2024-05-01".to_string())), "2024-05-01");
    assert_eq!(list_date(None), "unknown-date");
}

#[test]
fn blank_lines_are_dropped() {
    let lines = vec![
        "{\"a\":1}".to_string(),
        "".to_string(),
        "  \t".to_string(),
        "{\"b\":2}".to_string(),
        "\u{3000}".to_string(),
    ];
    assert_eq!(nonblank_lines(lines), vec!["{\"a\":1}".to_string(), "{\"b\":2}".to_string()]);
}

#[test]
fn summary_lists_counts_and_cards() {
    let cards = vec![card("decision", "选型", "用 Verus"), card("todo", "测试", "补齐")];
    let s = build_compact_summary("2024-05-01", 7, 3, &cards);
    let expected = "# 静桌面留档压缩摘要 2024-05-01\n\n## 范围\n\n\
- 只读取应用留档目录中的 messages/cards JSONL。\n\
- 未修改原始 messages/cards 文件。\n\
- 未读取、修改或删除任何用户授权目录中的原始文件。\n\n\
## 统计\n\n- 原始消息：7 条\n- 留档卡片：3 条\n\n## 卡片摘要\n\n\
- [decision] 选型：用 Verus\n- [todo] 测试：补齐\n";
    assert_eq!(s, expected);
}

#[test]
fn empty_summary() {
    let s = build_compact_summary("unknown-date", 0, 0, &vec![]);
    assert!(s.ends_with("- 原始消息：0 条\n- 留档卡片：0 条\n\n## 卡片摘要\n\n"));
}

#[test]
fn compact_result_and_template() {
    let r = MemoryCompactResult {
        date: "2024-05-01".to_string(),
        summary_path: "x".to_string(),
        message_count: 2,
        card_count: 1,
    };
    assert_eq!(r.message_count + r.card_count, 3);
    assert!(PROJECT_MEMORY_TEMPLATE.starts_with("# 静桌面项目记忆\n"));
}
