use chatmem::manager::MemoryManager;
use chatmem::model::Role;

const CONV: u64 = 7;

fn body(content: &str, total_tokens: i64) -> String {
    format!(
        "{{\"choices\":[{{\"message\":{{\"content\":\"{}\"}}}}],\"usage\":{{\"total_tokens\":{}}}}}",
        content, total_tokens
    )
}

#[test]
fn empty_input_is_a_no_op() {
    let m = MemoryManager::new(100, 0);
    assert!(m.prepare_turn(CONV, "alice", "").is_none());
    assert!(m.prepare_turn(CONV, "alice", "hi").is_some());
}

#[test]
fn assembly_order_persona_history_new() {
    let mut m = MemoryManager::new(0, 0);
    m.append_persona(CONV, "be terse".to_string());
    m.append_persona(CONV, "be kind".to_string());
    let o1 = m.settle_turn_decided(CONV, "alice", "one", "first".to_string(), 10);
    assert!(o1.saved);
    let o2 = m.settle_turn_decided(CONV, "alice", "two", "second".to_string(), 25);
    assert!(o2.saved);

    let msgs = m.prepare_turn(CONV, "alice", "three").unwrap();
    let got: Vec<(Role, &str)> =
        msgs.iter().map(|x| (x.role, x.content.as_str())).collect();
    assert_eq!(
        got,
        vec![
            (Role::System, "be terse"),
            (Role::System, "be kind"),
            (Role::User, "one"),
            (Role::Assistant, "first"),
            (Role::User, "two"),
            (Role::Assistant, "second"),
            (Role::User, "three"),
        ]
    );
    // persona author is empty; the new user message carries the author name
    assert_eq!(msgs[0].author, "");
    assert_eq!(msgs[6].author, "alice");
}

#[test]
fn eviction_scenario_keeps_newest_within_budget() {
    // budget 100, history [cost=40, cost=30], new turn reports 50 more:
    // the oldest exchange is evicted, leaving [30, 50] with total 80
    let mut m = MemoryManager::new(100, 0);
    m.settle_turn_decided(CONV, "a", "q1", "r1".to_string(), 40);
    m.settle_turn_decided(CONV, "a", "q2", "r2".to_string(), 70);
    assert_eq!(m.report_token_usage(CONV).0, 70);
    let o = m.settle_turn_decided(CONV, "a", "q3", "r3".to_string(), 120);
    assert!(o.saved);
    assert_eq!(m.report_token_usage(CONV), (80, 100));
    let transcript = m.list_memory(CONV).unwrap();
    assert_eq!(transcript, "a: q2\nChatGPT: r2\na: q3\nChatGPT: r3\n");
}

#[test]
fn exact_budget_fit_is_kept() {
    // an exchange that exactly exhausts the budget stays
    let mut m = MemoryManager::new(100, 0);
    m.settle_turn_decided(CONV, "a", "q1", "r1".to_string(), 50);
    let o = m.settle_turn_decided(CONV, "a", "q2", "r2".to_string(), 100);
    assert!(o.saved);
    assert_eq!(m.report_token_usage(CONV).0, 100);
    assert_eq!(m.list_memory(CONV).unwrap(), "a: q1\nChatGPT: r1\na: q2\nChatGPT: r2\n");
}

#[test]
fn oversized_exchange_is_kept_alone() {
    let mut m = MemoryManager::new(100, 0);
    m.settle_turn_decided(CONV, "a", "q1", "r1".to_string(), 60);
    let o = m.settle_turn_decided(CONV, "a", "q2", "r2".to_string(), 210);
    assert!(o.saved);
    // incremental cost 150 exceeds the whole budget: kept alone
    assert_eq!(m.report_token_usage(CONV).0, 150);
    assert_eq!(m.list_memory(CONV).unwrap(), "a: q2\nChatGPT: r2\n");
}

#[test]
fn unbounded_memory_never_evicts() {
    let mut m = MemoryManager::new(0, 0);
    let mut total = 0;
    for turn in 0..50 {
        total += 1000;
        let o = m.settle_turn_decided(CONV, "a", "q", format!("r{}", turn), total);
        assert!(o.saved);
    }
    assert_eq!(m.report_token_usage(CONV), (50 * 1000, 0));
    let transcript = m.list_memory(CONV).unwrap();
    assert_eq!(transcript.matches("ChatGPT:").count(), 50);
}

#[test]
fn negative_incremental_cost_records_nothing() {
    let mut m = MemoryManager::new(100, 0);
    m.settle_turn_decided(CONV, "a", "q1", "r1".to_string(), 40);
    // the service reports fewer tokens than already accounted: reply is
    // still returned, nothing is stored
    let o = m.settle_turn_decided(CONV, "a", "q2", "r2".to_string(), 30);
    assert!(!o.saved);
    assert_eq!(o.reply, "r2");
    assert_eq!(m.report_token_usage(CONV).0, 40);
    assert_eq!(m.list_memory(CONV).unwrap(), "a: q1\nChatGPT: r1\n");
}

#[test]
fn well_formed_body_is_settled() {
    let mut m = MemoryManager::new(100, 0);
    let o = m.settle_turn(CONV, "alice", "hello", &body("Hi there!", 42));
    assert!(o.saved);
    assert_eq!(o.reply, "Hi there!");
    assert_eq!(m.report_token_usage(CONV).0, 42);
}

#[test]
fn reply_is_trimmed_before_storing() {
    let mut m = MemoryManager::new(100, 0);
    let o = m.settle_turn(CONV, "alice", "hello", &body("\\r\\n  Hi there! \\n", 42));
    assert!(o.saved);
    assert_eq!(o.reply, "Hi there!");
    assert_eq!(m.list_memory(CONV).unwrap(), "alice: hello\nChatGPT: Hi there!\n");
}

#[test]
fn malformed_body_yields_fallback_and_no_change() {
    let mut m = MemoryManager::new(100, 0);
    m.settle_turn(CONV, "alice", "hello", &body("ok", 30));
    let before = m.report_token_usage(CONV);
    let listing = m.list_memory(CONV);
    let o = m.settle_turn(CONV, "alice", "again", "{}");
    assert!(!o.saved);
    assert_eq!(o.reply, "ChatGPT API server didn't respond.");
    assert_eq!(m.report_token_usage(CONV), before);
    assert_eq!(m.list_memory(CONV), listing);
}

#[test]
fn body_without_token_count_is_malformed() {
    let mut m = MemoryManager::new(100, 0);
    let o = m.settle_turn(
        CONV,
        "alice",
        "hello",
        "{\"choices\":[{\"message\":{\"content\":\"Hi\"}}]}",
    );
    assert!(!o.saved);
    assert_eq!(o.reply, "ChatGPT API server didn't respond.");
    assert_eq!(m.report_token_usage(CONV).0, 0);
}

#[test]
fn unparseable_body_is_malformed() {
    let mut m = MemoryManager::new(100, 0);
    let o = m.settle_turn(CONV, "alice", "hello", "not json at all");
    assert!(!o.saved);
    assert_eq!(o.reply, "ChatGPT API server didn't respond.");
}

#[test]
fn clears_are_idempotent() {
    let mut m = MemoryManager::new(100, 0);
    m.append_persona(CONV, "persona".to_string());
    m.settle_turn_decided(CONV, "a", "q", "r".to_string(), 10);

    assert!(m.clear_history(CONV));
    assert!(!m.clear_history(CONV));
    assert!(m.list_memory(CONV).is_none());
    assert_eq!(m.report_token_usage(CONV).0, 0);
    // persona survives a history clear
    assert_eq!(m.list_persona(CONV).unwrap(), "persona\n");

    assert!(m.clear_persona(CONV));
    assert!(!m.clear_persona(CONV));
    assert!(m.list_persona(CONV).is_none());
}

#[test]
fn conversations_are_independent() {
    let mut m = MemoryManager::new(100, 0);
    m.settle_turn_decided(1, "a", "q1", "r1".to_string(), 40);
    m.settle_turn_decided(2, "b", "q2", "r2".to_string(), 60);
    assert_eq!(m.report_token_usage(1).0, 40);
    assert_eq!(m.report_token_usage(2).0, 60);
    m.clear_history(1);
    assert_eq!(m.report_token_usage(1).0, 0);
    assert_eq!(m.report_token_usage(2).0, 60);
}

#[test]
fn listings_report_nothing_for_fresh_conversations() {
    let m = MemoryManager::new(100, 0);
    assert!(m.list_memory(CONV).is_none());
    assert!(m.list_persona(CONV).is_none());
    assert_eq!(m.report_token_usage(CONV), (0, 100));
}

#[test]
fn snapshot_is_a_copy() {
    let mut m = MemoryManager::new(100, 0);
    m.settle_turn_decided(CONV, "a", "q", "r".to_string(), 10);
    let mut snap = m.snapshot(CONV);
    snap.history.clear();
    // mutating the snapshot leaves the stored state untouched
    assert_eq!(m.report_token_usage(CONV).0, 10);
    assert!(m.list_memory(CONV).is_some());
}

#[test]
fn role_labels_match_the_wire_format() {
    assert_eq!(Role::System.label(), "system");
    assert_eq!(Role::User.label(), "user");
    assert_eq!(Role::Assistant.label(), "assistant");
}
