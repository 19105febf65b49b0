//! Sessions as they are listed, previewed and gone on with.
use tpi::app::diff::last_edit_diff;
use tpi::app::keyboard::is_actionable_key_kind;
use tpi::app::keyboard::KeyEventKind;
use tpi::app::sessions::count_jsonl_lines;
use tpi::app::sessions::first_user_preview;
use tpi::app::sessions::latest_session_id;
use tpi::app::sessions::order_sessions;
use tpi::app::sessions::parse_session_id;
use tpi::app::sessions::preview_lines_to_body;
use tpi::app::sessions::resolve_session_id_prefix;
use tpi::app::sessions::session_dialogue_preview;
use tpi::app::sessions::session_menu_label;
use tpi::app::sessions::session_resume_label;
use tpi::app::sessions::HeadLine;
use tpi::app::sessions::LineCounter;
use tpi::app::sessions::MenuPreviewLine;
use tpi::app::sessions::SessionFile;
use tpi::ids::SessionId;
use tpi::ids::ToolCallId;
use tpi::message::ToolCall;
use tpi::outcome::ModelPayload;
use tpi::outcome::StoredToolOutcome;
use tpi::outcome::ToolMetadata;
use tpi::outcome::ToolStatus;
use tpi::session::ModelRef;
use tpi::session::RunLimits;
use tpi::session::SessionEvent;

#[test]
fn key_repeat_is_an_edit_event_but_release_is_not() {
    assert!(is_actionable_key_kind(KeyEventKind::Press));
    assert!(is_actionable_key_kind(KeyEventKind::Repeat));
    assert!(!is_actionable_key_kind(KeyEventKind::Release));
}

#[test]
fn resume_prefix_matches_uniquely() {
    let id1 = "019fda3c-c299-7890-b9ab-4cc7f311475a";
    let id2 = "019fdabf-2250-7310-b988-673a49d1c675";
    let names = vec![format!("{id1}.jsonl"), format!("{id2}.jsonl")];
    assert_eq!(
        resolve_session_id_prefix(id1, &names).unwrap().to_text(),
        id1
    );
    assert_eq!(
        resolve_session_id_prefix("019FDA3C", &names)
            .unwrap()
            .to_text(),
        id1
    );
    let err = resolve_session_id_prefix("019fd", &names).unwrap_err();
    assert!(err.contains("匹配 2 个"), "{err}");
    let err = resolve_session_id_prefix("zzz", &names).unwrap_err();
    assert!(err.contains("没有找到"), "{err}");
    let err = resolve_session_id_prefix("", &names).unwrap_err();
    assert!(err.contains("为空"), "{err}");
}

#[test]
fn other_files_are_no_sessions() {
    let id = "019fda3c-c299-7890-b9ab-4cc7f311475a";
    let names = vec![
        format!("{id}.jsonl"),
        format!("{id}.jsonl.lock"),
        "019fda3c-backup.jsonl".to_string(),
    ];
    assert_eq!(
        resolve_session_id_prefix("019fda3c", &names)
            .unwrap()
            .to_text(),
        id
    );
}

#[test]
fn a_session_id_is_parsed_or_refused() {
    let id = "019fda3c-c299-7890-b9ab-4cc7f311475a";
    assert_eq!(parse_session_id(id).unwrap().to_text(), id);
    assert_eq!(parse_session_id("nope").unwrap_err(), "无效 session id: nope");
}

#[test]
fn count_jsonl_lines_counts_events_not_parses() {
    assert_eq!(
        count_jsonl_lines(b"{}\n{}\n\n{}\n"),
        3,
        "空行不计，行数即事件数"
    );
    assert_eq!(
        count_jsonl_lines(b"this is not json\n"),
        1,
        "损坏行仍计入（列表展示用）"
    );
}

#[test]
fn lines_are_counted_piece_by_piece() {
    let mut counter = LineCounter::new();
    counter.feed(b"{}\n{");
    counter.feed(b"}\n \n");
    counter.feed(b"{}");
    assert_eq!(counter.total(), 3);
    assert_eq!(count_jsonl_lines(b"{}\n{}\n \n{}"), 3);
}

#[test]
fn first_user_preview_is_bounded_and_single_line() {
    let lines = vec![
        HeadLine::User(format!("{}\n第二行", "长消息".repeat(20))),
        HeadLine::User("later".into()),
    ];
    let preview = first_user_preview(&lines);
    assert!(preview.chars().count() <= 41, "预览必须截断: {preview}");
    assert!(!preview.contains('\n'), "预览必须单行: {preview}");
    assert!(preview.ends_with('…'), "超长必须带省略号");
}

#[test]
fn first_user_preview_is_bounded_to_file_head() {
    let mut lines = Vec::new();
    for _ in 0..600 {
        lines.push(HeadLine::Skipped);
    }
    lines.push(HeadLine::User("太晚的消息".into()));
    assert_eq!(
        first_user_preview(&lines),
        "",
        "超过头部预算的 UserSubmitted 不应被读取（保持 /sessions 轻量）"
    );
}

#[test]
fn first_user_preview_skips_a_whole_oversized_line_without_losing_alignment() {
    let lines = vec![HeadLine::Skipped, HeadLine::User("仍可读取".into())];
    assert_eq!(first_user_preview(&lines), "仍可读取");
}

#[test]
fn session_dialogue_preview_collects_user_and_ai_only() {
    let long_user = "x".repeat(200);
    let lines = vec![
        HeadLine::User("帮我看看这个仓库".into()),
        HeadLine::Assistant("好的，我先看下结构\n第二行".into()),
        HeadLine::Skipped,
        HeadLine::Assistant("结论：这是一个 Rust 项目".into()),
        HeadLine::User(long_user),
    ];
    let preview = session_dialogue_preview(&lines);
    let texts: Vec<(bool, &str)> = preview
        .iter()
        .map(|MenuPreviewLine { is_user, text }| (*is_user, text.as_str()))
        .collect();
    assert_eq!(
        texts,
        vec![
            (true, "帮我看看这个仓库"),
            (false, "好的，我先看下结构"),
            (false, "结论：这是一个 Rust 项目"),
            (true, format!("{}…", "x".repeat(60)).as_str()),
        ],
        "只取 User/AI 首行、工具跳过、多行取首行、超长截断: {texts:?}"
    );
    assert!(
        preview.iter().all(|l| !l.text.is_empty()),
        "空内容消息不进入预览"
    );
    assert_eq!(
        preview_lines_to_body(&preview[..2]),
        "你 帮我看看这个仓库\nAI 好的，我先看下结构"
    );
}

#[test]
fn session_dialogue_preview_is_bounded() {
    let lines: Vec<HeadLine> = (0..20)
        .map(|i| HeadLine::User(format!("消息 {i}")))
        .collect();
    assert_eq!(
        session_dialogue_preview(&lines).len(),
        6,
        "预览最多 6 条（长会话不解析整个文件）"
    );
}

#[test]
fn session_dialogue_preview_strips_code_fences() {
    let lines = vec![
        HeadLine::User("```toml\n[agent.limits]\nmax_turns = 0\n```".into()),
        HeadLine::Assistant("~~~bash\necho hi\n~~~\n然后我做了 X".into()),
    ];
    let preview = session_dialogue_preview(&lines);
    let texts: Vec<&str> = preview.iter().map(|l| l.text.as_str()).collect();
    assert_eq!(
        texts,
        vec!["然后我做了 X"],
        "纯代码块消息无标题跳过，围栏标记与代码内容不得当标题: {texts:?}"
    );
    assert!(
        preview
            .iter()
            .all(|l| !l.text.contains("```") && !l.text.contains("~~~")),
        "预览不得含围栏标记: {texts:?}"
    );
}

#[test]
fn sessions_are_listed_newest_first() {
    let file = |modified: i128, file: usize| SessionFile {
        modified,
        id: SessionId::from_u128(file as u128),
        file,
    };
    let sorted = order_sessions(&vec![file(5, 0), file(9, 1), file(5, 2), file(7, 3)]);
    let order: Vec<usize> = sorted.iter().map(|s| s.file).collect();
    assert_eq!(order, vec![1, 3, 0, 2]);
    assert_eq!(latest_session_id(&sorted).unwrap(), SessionId::from_u128(1));
    assert_eq!(
        latest_session_id(&Vec::new()).unwrap_err(),
        "当前 workspace 没有历史 session"
    );
    let many: Vec<SessionFile> = (0..150).map(|i| file(i as i128, i)).collect();
    assert_eq!(order_sessions(&many).len(), 100);
}

#[test]
fn sessions_are_shown_by_title_and_time() {
    let id = parse_session_id("019fda3c-c299-7890-b9ab-4cc7f311475a").unwrap();
    assert_eq!(session_resume_label(None, ""), "已恢复会话");
    assert_eq!(
        session_resume_label(Some(id), "title"),
        "已恢复会话「title」（019fda3c-c299…）"
    );
    assert_eq!(
        session_resume_label(Some(id), ""),
        "已恢复会话（019fda3c-c299…）"
    );
    assert_eq!(
        session_menu_label("", 1_700_000_000, 3),
        "(无标题) · 11-14 22:13 · 3 事件"
    );
}

fn edit_outcome(output: &str, status: ToolStatus) -> StoredToolOutcome {
    StoredToolOutcome {
        status,
        model_payload: ModelPayload {
            status,
            program: None,
            exit_code: None,
            duration_ms: 0,
            output: output.to_string(),
            effect: None,
            artifact: None,
        },
        session_metadata: ToolMetadata {
            tool: "edit".into(),
            target: Some("a.rs".into()),
            diff: Some(output.to_string()),
        },
    }
}

fn append_edit(events: &mut Vec<SessionEvent>, output: &str, status: ToolStatus) {
    let call_id = ToolCallId::new_v7();
    events.push(SessionEvent::ToolRequested {
        call: ToolCall {
            call_id,
            provider_id: format!("provider-{}", call_id.to_text()),
            name: "edit".into(),
            arguments: "{}".into(),
        },
    });
    events.push(SessionEvent::ToolCompleted {
        call_id,
        outcome: edit_outcome(output, status),
    });
}

#[test]
fn last_edit_diff_aggregates_all_successful_edits() {
    let mut events = Vec::new();
    append_edit(&mut events, "diff-one", ToolStatus::Succeeded);
    append_edit(&mut events, "diff-failed", ToolStatus::Failed);
    append_edit(&mut events, "diff-two", ToolStatus::Succeeded);
    let text = last_edit_diff(&events);
    assert!(
        text.contains("diff-one"),
        "第一个成功 edit 必须出现: {text}"
    );
    assert!(
        text.contains("diff-two"),
        "第二个成功 edit 必须出现: {text}"
    );
    assert!(
        !text.contains("diff-failed"),
        "失败的 edit 不得出现在聚合里: {text}"
    );
}

#[test]
fn only_the_last_run_is_diffed() {
    let mut events = Vec::new();
    append_edit(&mut events, "before", ToolStatus::Succeeded);
    events.push(SessionEvent::RunStarted {
        model: ModelRef {
            name: "m".into(),
            provider: "p".into(),
        },
        limits: RunLimits {
            max_turns: 1,
            max_tool_calls: 1,
        },
    });
    assert_eq!(
        last_edit_diff(&events),
        "本轮还没有带 diff 的成功 edit/write"
    );
    append_edit(&mut events, "after", ToolStatus::Succeeded);
    append_edit(&mut events, "again", ToolStatus::Succeeded);
    assert_eq!(last_edit_diff(&events), "after\n---\n\nagain");
}

#[test]
fn a_long_diff_is_cut() {
    let mut events = Vec::new();
    append_edit(&mut events, &"界".repeat(30_000), ToolStatus::Succeeded);
    let text = last_edit_diff(&events);
    assert!(text.len() <= 48 * 1024);
    assert!(text.ends_with("\n…（diff 超过 48KiB 预算，已截断）"));
}
