use risk_guard::brain::{action_from_lowercase, clean_reply, parse_action, Action};
use risk_guard::config::{ai_enabled_from, ai_enabled_setting, kraken_cli_setting};
use risk_guard::market::{
    arm_dead_mans_switch, dead_mans_switch_command, empty_reply_message, history_reply, judge_reply,
    keep_last, paper_history_items, parse_reply, reply_error, KrakenCommand, ReplyVerdict,
};
use risk_guard::text::{contains, decimal_string, signed_decimal_string};

#[test]
fn actions_are_read_in_any_case() {
    assert_eq!(parse_action("BUY"), Action::Buy);
    assert_eq!(parse_action("Sell"), Action::Sell);
    assert_eq!(parse_action("hold"), Action::Hold);
    assert_eq!(parse_action("buy now"), Action::Hold);
    assert_eq!(Action::Buy.label(), "BUY");
    assert_eq!(Action::Sell.log_name(), "sell");
}

#[test]
fn replies_lose_fences_and_white_space() {
    let raw = "  ```json\n{\"action\": \"buy\"}\n```  \n";
    assert_eq!(clean_reply(raw), "{\"action\": \"buy\"}");
    assert_eq!(clean_reply("```\n{}\n``````"), "{}");
    assert_eq!(clean_reply("\u{3000}{}\u{a0}"), "{}");
    assert_eq!(clean_reply("plain"), "plain");
    assert_eq!(clean_reply("   "), "");
}

#[test]
fn ai_setting_and_cli_path() {
    assert!(ai_enabled_setting(None));
    assert!(ai_enabled_setting(Some("1")));
    assert!(!ai_enabled_setting(Some("0")));
    assert!(!ai_enabled_setting(Some("FALSE")));
    assert!(!ai_enabled_setting(Some("False")));
    assert!(ai_enabled_setting(Some("no")));
    assert_eq!(kraken_cli_setting(None), "kraken");
    assert_eq!(kraken_cli_setting(Some("/usr/local/bin/kraken".to_string())), "/usr/local/bin/kraken");
}

#[test]
fn command_lines() {
    assert_eq!(KrakenCommand::CancelAfter { seconds: 120 }.args(), vec!["order", "cancel-after", "120", "-o", "json"]);
    assert_eq!(
        KrakenCommand::Ohlc { pair: "BTCUSD".to_string(), interval_mins: 60 }.args(),
        vec!["ohlc", "BTCUSD", "--interval", "60", "-o", "json"]
    );
    assert_eq!(KrakenCommand::PaperReset.args(), vec!["paper", "reset", "-o", "json"]);
    assert_eq!(
        KrakenCommand::PaperInit { balance: "10000.00".to_string(), currency: "USD".to_string() }.args(),
        vec!["paper", "init", "--balance", "10000.00", "--currency", "USD", "-o", "json"]
    );
    assert_eq!(
        KrakenCommand::PaperBuy { pair: "ETHUSD".to_string(), volume: "0.50000000".to_string() }.args(),
        vec!["paper", "buy", "ETHUSD", "0.50000000", "-o", "json"]
    );
    assert_eq!(KrakenCommand::Status.args(), vec!["status", "-o", "json"]);
    assert_eq!(KrakenCommand::Ticker { pair: "SOLUSD".to_string() }.args(), vec!["ticker", "SOLUSD", "-o", "json"]);
}

#[test]
fn reply_errors() {
    assert_eq!(reply_error(Some("EAPI"), Some("Invalid key")), Some("[EAPI] Invalid key".to_string()));
    assert_eq!(reply_error(Some("EGeneral"), None), Some("[EGeneral] unknown".to_string()));
    assert_eq!(reply_error(None, Some("ignored")), None);
    assert_eq!(empty_reply_message(Some(2)), "Empty response from kraken CLI (exit 2)");
    assert_eq!(empty_reply_message(None), "Empty response from kraken CLI (exit -1)");
}

#[test]
fn dead_mans_switch_tolerates_missing_credentials() {
    assert_eq!(arm_dead_mans_switch(Ok(())), Ok(()));
    assert_eq!(arm_dead_mans_switch(Err("[EAPI] Invalid key".to_string())), Ok(()));
    assert_eq!(arm_dead_mans_switch(Err("[EAPI] authentication required".to_string())), Ok(()));
    assert_eq!(
        arm_dead_mans_switch(Err("[EService] Unavailable".to_string())),
        Err("[EService] Unavailable".to_string())
    );
}

#[test]
fn candle_history_keeps_the_newest() {
    assert_eq!(keep_last(vec![1, 2, 3, 4, 5], 3), vec![3, 4, 5]);
    assert_eq!(keep_last(vec![1, 2], 3), vec![1, 2]);
    assert_eq!(keep_last(vec![1, 2], 0), Vec::<i32>::new());
}

#[test]
fn numerals_and_search() {
    assert_eq!(decimal_string(0), "0");
    assert_eq!(decimal_string(18_446_744_073_709_551_615), "18446744073709551615");
    assert_eq!(signed_decimal_string(-2_147_483_648), "-2147483648");
    assert_eq!(signed_decimal_string(7), "7");
    assert!(contains("abc", ""));
    assert!(contains("café auth", "auth"));
    assert!(!contains("au", "auth"));
}

#[test]
fn lowercase_helpers() {
    assert_eq!(action_from_lowercase("buy"), Action::Buy);
    assert_eq!(action_from_lowercase("sell"), Action::Sell);
    assert_eq!(action_from_lowercase("BUY"), Action::Hold);
    assert!(!ai_enabled_from("0", "0"));
    assert!(!ai_enabled_from("FALSE", "false"));
    assert!(ai_enabled_from("yes", "yes"));
}

#[test]
fn replies_are_judged() {
    match judge_reply("  \n", Some(1)) {
        ReplyVerdict::Empty { message } => assert_eq!(message, "Empty response from kraken CLI (exit 1)"),
        _ => panic!("expected an empty reply"),
    }
    assert!(matches!(judge_reply("not json", Some(0)), ReplyVerdict::NotJson));
    match judge_reply(" {\"error\": \"EAPI\", \"message\": \"Invalid key\"}\n", Some(0)) {
        ReplyVerdict::Failed { message } => assert_eq!(message, "[EAPI] Invalid key"),
        _ => panic!("expected a failed reply"),
    }
    match judge_reply("{\"error\": \"EGeneral\"}", None) {
        ReplyVerdict::Failed { message } => assert_eq!(message, "[EGeneral] unknown"),
        _ => panic!("expected a failed reply"),
    }
    assert!(matches!(judge_reply("{\"error\": 5, \"price\": 1}", Some(0)), ReplyVerdict::Accepted));
    assert!(matches!(judge_reply("[1, 2]", Some(0)), ReplyVerdict::Accepted));
    assert_eq!(parse_reply("{\"message\": \"m\"}"), Some((None, Some("m".to_string()))));
    assert_eq!(parse_reply("{"), None);
}

#[test]
fn history_items_and_switch_command() {
    let list: serde_json::Value = serde_json::from_str("[1, 2, 3]").unwrap();
    assert_eq!(paper_history_items(history_reply(list)).len(), 3);
    let obj: serde_json::Value = serde_json::from_str("{\"trades\": [1]}").unwrap();
    assert_eq!(paper_history_items(history_reply(obj)).len(), 1);
    let obj: serde_json::Value = serde_json::from_str("{\"trades\": 7}").unwrap();
    assert!(paper_history_items(history_reply(obj)).is_empty());
    let other: serde_json::Value = serde_json::from_str("\"x\"").unwrap();
    assert!(paper_history_items(history_reply(other)).is_empty());
    assert_eq!(dead_mans_switch_command(120).args(), vec!["order", "cancel-after", "120", "-o", "json"]);
}
