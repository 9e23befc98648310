use mor_lms::desktop::{mode_class, nav_class, screen_for, sync_status, Screen, SyncMode};
use mor_lms::schema::{mine_url, mined_card, Card, Deck};
use mor_lms::text::{replace_char, trim};
use mor_lms::sensor::{
    build_mine_payload, initialize_sensor, sensor_mark, sensor_unlock, SensorStart, stored_vault_bytes, tracker_button_id, tracker_markup, tracker_target,
    vault_storage_text,
};
use mor_lms::srs::{advance_schedule, next_review_at};
use mor_lms::tracker::{NodeType, TrackedNode, Vault};

#[test]
fn deck_new_and_add_card() {
    let mut d = Deck::new("d1", "Spanish");
    assert_eq!(d.format, "mflash_v5_json");
    assert!(d.cards.is_empty() && d.tags.is_empty() && d.description.is_none());
    d.add_card(Card { id: "c".into(), term: "hola".into(), definition: "hello".into(), term_lang: None, def_lang: None, tags: vec![] });
    assert_eq!(d.cards.len(), 1);
    assert_eq!(d.cards[0].term, "hola");
}

#[test]
fn sensor_payloads() {
    assert_eq!(initialize_sensor(), "Sensor WASM module loaded. Ready to track content.");
    assert_eq!(build_mine_payload("Spaced repetition"), "{\"action\": \"mine_topic\", \"topic\": \"Spaced repetition\"}");
}

#[test]
fn sm2_schedule() {
    assert_eq!(advance_schedule(5, 30, false, 99), (0, 1));
    assert_eq!(advance_schedule(0, 0, true, 99), (1, 1));
    assert_eq!(advance_schedule(1, 1, true, 99), (2, 6));
    assert_eq!(advance_schedule(2, 6, true, 15), (3, 15));
    assert_eq!(next_review_at(1000, 6), 1000 + 6 * 86400);
}

#[test]
fn node_types() {
    assert_eq!(NodeType::from_name("lesson"), NodeType::Lesson);
    assert_eq!(NodeType::from_name("lexicon"), NodeType::Lexicon);
    assert_eq!(NodeType::from_name("video"), NodeType::Article);
    assert_eq!(NodeType::from_name("LeSSon"), NodeType::Lesson);
    assert_eq!(NodeType::from_name("LEXICON"), NodeType::Lexicon);
    assert!(NodeType::Lexicon.tracks_srs() && NodeType::Lesson.tracks_srs() && !NodeType::Article.tracks_srs());
}

fn node(id: &str, t: NodeType, srs: Option<u32>) -> TrackedNode<u32> {
    TrackedNode { id: id.to_string(), parent_id: None, node_type: t, is_completed: false, srs }
}

#[test]
fn progress_vault_insert_get_replace() {
    let mut v: Vault<u32> = Vault::new();
    assert_eq!(v.len(), 0);
    assert!(v.get_node("a").is_none());
    v.insert_node(node("a", NodeType::Article, None));
    v.insert_node(node("b", NodeType::Lexicon, Some(7)));
    assert_eq!(v.len(), 2);
    assert_eq!(v.get_node("b").unwrap().srs, Some(7));
    let mut replaced = node("a", NodeType::Lesson, Some(1));
    replaced.parent_id = Some("course".to_string());
    v.insert_node(replaced);
    assert_eq!(v.len(), 2);
    let a = v.get_node("a").unwrap();
    assert_eq!(a.node_type, NodeType::Lesson);
    assert_eq!(a.parent_id.as_deref(), Some("course"));
    assert_eq!(v.nodes().len(), 2);
}

#[test]
fn progress_vault_mark_completed() {
    let mut v: Vault<u32> = Vault::default();
    v.insert_node(node("a", NodeType::Article, None));
    v.insert_node(node("b", NodeType::Article, None));
    assert_eq!(v.completed_count(), 0);
    assert_eq!(v.mark_completed("a"), Ok(()));
    assert!(v.get_node("a").unwrap().is_completed);
    assert!(!v.get_node("b").unwrap().is_completed);
    assert_eq!(v.completed_count(), 1);
    assert_eq!(v.mark_completed("a"), Ok(()));
    assert_eq!(v.completed_count(), 1);
    assert_eq!(v.mark_completed("zzz"), Err("Node ID 'zzz' not found in Vault.".to_string()));
    assert_eq!(v.len(), 2);
}

#[test]
fn progress_vault_process_review() {
    let mut v: Vault<u32> = Vault::new();
    v.insert_node(node("w", NodeType::Lexicon, Some(10)));
    v.insert_node(node("post", NodeType::Article, None));
    assert_eq!(v.process_review("w", |s: u32| s + 5), Ok(()));
    assert_eq!(v.get_node("w").unwrap().srs, Some(15));
    assert_eq!(v.process_review("post", |s: u32| s + 5), Err("Node ID 'post' does not have SRS data attached.".to_string()));
    assert_eq!(v.get_node("post").unwrap().srs, None);
    assert_eq!(v.process_review("nope", |s: u32| s + 5), Err("Node ID 'nope' not found.".to_string()));
    let mut n = node("x", NodeType::Lesson, None);
    n.mark_complete();
    assert!(n.is_completed);
}

#[test]
fn desktop_routing_and_labels() {
    assert_eq!(screen_for("study"), Screen::Study);
    assert_eq!(screen_for("vault"), Screen::Vault);
    assert_eq!(screen_for("sync"), Screen::Sync);
    assert_eq!(screen_for("settings"), Screen::NotFound);
    assert_eq!(nav_class("vault", "vault"), "active");
    assert_eq!(nav_class("vault", "study"), "");
    assert_eq!(sync_status(SyncMode::Daemon), "🟢 Sync: 24/7 (Daemon)");
    assert_eq!(sync_status(SyncMode::AppBound), "🟡 Sync: Active (App-bound)");
    assert_eq!(mode_class(SyncMode::Daemon, SyncMode::Daemon), "active");
    assert_eq!(mode_class(SyncMode::AppBound, SyncMode::Daemon), "");
}

#[test]
fn text_trim_and_replace() {
    assert_eq!(trim("  \t hello world \n"), "hello world");
    assert_eq!(trim("\u{3000}x\u{a0}"), "x");
    assert_eq!(trim("   "), "");
    assert_eq!(trim(""), "");
    assert_eq!(replace_char("a b  c", ' ', "_"), "a_b__c");
    assert_eq!(replace_char("line1\nline2", '\n', " "), "line1 line2");
    assert_eq!(replace_char("ünï cödé", ' ', "-"), "ünï-cödé");
}

#[test]
fn mining_builds_cards() {
    assert_eq!(
        mine_url("Spaced repetition"),
        "https://en.wikipedia.org/w/api.php?action=query&prop=extracts&exsentences=2&explaintext=1&format=json&titles=Spaced repetition"
    );
    let c = mined_card("Spaced Repetition".to_string(), Some("  Spaced repetition is a technique.\nIt helps.  ".to_string()));
    assert_eq!(c.id, "spaced_repetition");
    assert_eq!(c.term, "Spaced Repetition");
    assert_eq!(c.definition, "Spaced repetition is a technique. It helps.");
    assert_eq!(c.term_lang.as_deref(), Some("en"));
    assert_eq!(c.def_lang.as_deref(), Some("en"));
    assert_eq!(c.tags, vec!["mined".to_string()]);
    let empty = mined_card("Ωmega Point".to_string(), None);
    assert_eq!(empty.id, "ωmega_point");
    assert_eq!(empty.definition, "No definition found.");
}

#[test]
fn sensor_tracker_panel_and_completion() {
    assert_eq!(tracker_target(None, None), ("unknown".to_string(), "generic_node".to_string()));
    assert_eq!(tracker_target(Some("lexicon".into()), Some("w1".into())), ("lexicon".to_string(), "w1".to_string()));
    assert_eq!(tracker_button_id("w1"), "mor-btn-w1");
    let html = tracker_markup("lexicon", "w1");
    assert!(html.starts_with("<div style='margin-top: 20px; padding: 15px;"));
    assert!(html.contains("<div style='font-size: 0.85rem; color: #8b949e;'>Type: LEXICON | ID: w1</div>"));
    assert!(html.contains("<button id='mor-btn-w1' style='background: #238636;"));
    assert!(html.ends_with("                Mark via Rust\n            </button>\n        </div>"));

    let text = vault_storage_text(&[0u8, 1, 2, 250, 255]);
    assert_eq!(text, "AAEC+v8=");
    assert_eq!(stored_vault_bytes(Some(&text)), Some(vec![0u8, 1, 2, 250, 255]));
    assert_eq!(stored_vault_bytes(Some("not base64!")), None);
    assert_eq!(stored_vault_bytes(None), None);

    let mut v: Vault<u32> = Vault::new();
    v.insert_node(TrackedNode { id: "a".into(), parent_id: Some("p".into()), node_type: NodeType::Lesson, is_completed: false, srs: Some(3) });
    sensor_mark(&mut v, "a", "lexicon");
    sensor_mark(&mut v, "b", "media");
    let a = v.get_node("a").unwrap();
    assert!(a.is_completed && a.node_type == NodeType::Lexicon && a.parent_id.is_none() && a.srs.is_none());
    let b = v.get_node("b").unwrap();
    assert!(b.is_completed && b.node_type == NodeType::Article);
    assert_eq!(v.len(), 2);
}

#[test]
fn sensor_click_first_step() {
    let never = |_: Vec<u8>, _: String| -> Result<String, String> { panic!("nothing to decrypt") };
    assert_eq!(sensor_unlock(None, Some("AAEC"), never), SensorStart::Cancelled);
    assert_eq!(sensor_unlock(Some(String::new()), Some("AAEC"), never), SensorStart::Cancelled);
    assert_eq!(sensor_unlock(Some("pw".into()), None, never), SensorStart::Proceed(None));
    assert_eq!(sensor_unlock(Some("pw".into()), Some("not base64!"), never), SensorStart::Proceed(None));
    let r = sensor_unlock(Some("pw".into()), Some("AAEC"), |b: Vec<u8>, p: String| {
        assert_eq!((b, p.as_str()), (vec![0u8, 1, 2], "pw"));
        Ok("{}".to_string())
    });
    assert_eq!(r, SensorStart::Proceed(Some("{}".to_string())));
    let r = sensor_unlock(Some("pw".into()), Some("AAEC"), |_: Vec<u8>, _: String| Err("bad".to_string()));
    assert_eq!(r, SensorStart::WrongPassword);
}
