use im_channel_gateway::acl::{AccessControl, ChannelAcl};
use im_channel_gateway::queue::{priority_for_query, session_key, UnifiedQueue};
use im_channel_gateway::table::Table;
use im_channel_gateway::text::{can_split_text, split_text, split_text_chars};

#[test]
fn split_text_chunks() {
    let s = "a".repeat(100);
    let chunks = split_text(&s, 40);
    assert!(chunks.len() >= 3);
    assert_eq!(chunks.join(""), s);
}

#[test]
fn split_text_chars_respects_limit() {
    let s = format!("{}\n\n{}", "段落一".repeat(400), "段落二".repeat(400));
    let chunks = split_text_chars(&s, 500);
    assert!(chunks.len() >= 2);
    assert!(chunks.iter().all(|c| c.chars().count() <= 500));
    assert_eq!(
        chunks.iter().map(|c| c.chars().count()).sum::<usize>(),
        s.chars().count()
    );
}

#[test]
fn split_at_paragraph_boundary() {
    let para1 = "甲".repeat(1800);
    let para2 = "乙".repeat(500);
    let text = format!("{para1}\n\n{para2}");
    let chunks = split_text_chars(&text, 2000);
    assert_eq!(chunks.len(), 2);
    assert!(chunks[0].ends_with("\n\n"));
    assert!(chunks[1].starts_with('乙'));
}

#[test]
fn split_at_sentence_period_near_limit() {
    let body = "这是测试句子。".repeat(300);
    let chunks = split_text_chars(&body, 2000);
    assert!(chunks.len() >= 2);
    assert!(chunks[0].ends_with('。'));
    assert!(chunks[0].chars().count() >= 1700);
    assert!(chunks.iter().all(|c| c.chars().count() <= 2000));
    assert_eq!(chunks.concat().chars().count(), body.chars().count());
}

#[test]
fn split_skips_early_sentence_break_for_larger_chunk() {
    let early = "短句。";
    let rest = "x".repeat(1900);
    let text = format!("{early}{rest}");
    let chunks = split_text_chars(&text, 2000);
    assert_eq!(chunks.len(), 1);
    assert_eq!(chunks[0].chars().count(), text.chars().count());
}

#[test]
fn short_text_is_one_piece() {
    assert_eq!(split_text("hello", 40), vec!["hello".to_string()]);
    assert_eq!(split_text_chars("hello", 40), vec!["hello".to_string()]);
}

#[test]
fn a_limit_that_holds_no_character_cannot_split() {
    assert!(can_split_text("hello", 3));
    assert!(can_split_text("短句", 3));
    assert!(!can_split_text("短句", 2));
}

#[test]
fn acl_open_when_disabled() {
    let acl = AccessControl::new();
    assert!(!acl.check_blocked_with_flags("telegram", "user1", false, false, false));
}

fn listed(users: &[&str], barred: &[&str]) -> ChannelAcl {
    let mut whitelist = Table::new_texts();
    for u in users {
        whitelist.put_text(u, "ok");
    }
    let mut blacklist = Table::new_texts();
    for u in barred {
        blacklist.put_text(u, "no");
    }
    ChannelAcl {
        whitelist,
        blacklist,
    }
}

#[test]
fn acl_dynamic_account_channel_falls_back_to_base_channel() {
    let mut acl = AccessControl::new();
    acl.channels
        .insert("telegram".to_string(), listed(&["user1"], &[]));
    acl.channels
        .insert("wechat".to_string(), listed(&["wx_user"], &[]));

    assert!(!acl.check_blocked_with_flags("telegram:tg_123", "user1", true, false, false));
    assert!(acl.check_blocked_with_flags("telegram:tg_123", "user2", true, false, false));
    assert!(!acl.check_blocked_with_flags("wechat:acc_123", "wx_user", true, false, false));
}

#[test]
fn blacklist_counts_only_where_access_control_is_on() {
    let mut acl = AccessControl::new();
    acl.channels
        .insert("wechat".to_string(), listed(&["both"], &["both"]));
    assert!(acl.check_blocked_with_flags("wechat", "both", true, false, false));
    assert!(!acl.check_blocked_with_flags("wechat", "both", true, false, true));
}

#[test]
fn deny_message_names_the_sender() {
    let acl = AccessControl::new();
    assert!(acl.deny_message("en", "user_9").contains("user_9"));
    assert!(acl.deny_message("zh", "user_9").contains("user_9"));
    assert_ne!(
        acl.deny_message("en", "user_9"),
        acl.deny_message("zh", "user_9")
    );
}

#[test]
fn approval_response_commands_use_high_priority() {
    assert_eq!(priority_for_query("/approve req_1"), 10);
    assert_eq!(priority_for_query("/deny req_1"), 10);
    assert_eq!(priority_for_query("/answer req_1 yes"), 10);
}

#[test]
fn plain_text_has_the_usual_priority() {
    assert!(priority_for_query("hello") != 10);
    assert_eq!(priority_for_query("  /APPROVE req_1"), 10);
}

#[test]
fn session_key_joins_channel_and_sender() {
    assert_eq!(session_key("telegram", "42"), "telegram:42");
}

#[test]
fn one_queue_for_each_session_and_priority() {
    let mut q = UnifiedQueue::new(256);
    let a = q.enqueue("telegram", "s1", 0);
    let b = q.enqueue("telegram", "s2", 0);
    let c = q.enqueue("telegram", "s1", 10);
    let d = q.enqueue("telegram", "s1", 0);
    assert!(a.opened && b.opened && c.opened && !d.opened);
    assert_eq!(a.queue, d.queue);
    assert_ne!(a.queue, b.queue);
    assert_ne!(a.queue, c.queue);
}
