use tornado_matcher::config::MatcherConfig;
use tornado_matcher::convert::matcher_config_into_dto;
use tornado_matcher::dto::MatcherConfigDto;
use tornado_matcher::event::Event;
use tornado_matcher::matcher::Matcher;
use tornado_matcher::model::{ProcessedNode, ProcessedRules};
use tornado_matcher::value::Value;
use tornado_matcher::webhook::{accept_call, pong_text, webhook_path, WebhookConfig, WebhookError};

fn webhooks() -> Vec<WebhookConfig> {
    vec![
        WebhookConfig {
            id: "hook_1".to_owned(),
            token: "hook_1_token".to_owned(),
            event_type: "hook_1_type".to_owned(),
        },
        WebhookConfig {
            id: "hook_2".to_owned(),
            token: "hook_2_token".to_owned(),
            event_type: "hook_2_type".to_owned(),
        },
    ]
}

fn body() -> Vec<(String, Value)> {
    vec![("map".to_owned(), Value::Object(vec![("first".to_owned(), Value::Text("webhook_event".to_owned()))]))]
}

#[test]
fn ping_should_return_pong() {
    let body = pong_text("2014-11-28T21:45:59.324310806+09:00");
    assert!(body.contains("pong - "));
    assert_eq!("pong - 2014-11-28T21:45:59.324310806+09:00", body);
}

#[test]
fn should_create_a_path_per_webhook() {
    let paths: Vec<String> = webhooks().iter().map(|w| webhook_path(&w.id)).collect();
    assert_eq!(vec!["/event/hook_1".to_owned(), "/event/hook_2".to_owned()], paths);
    let config = webhooks();
    assert!(accept_call(&config[0], "hook_1_token", "t".to_owned(), 0, body()).is_ok());
    assert!(accept_call(&config[1], "hook_2_token", "t".to_owned(), 0, body()).is_ok());
}

#[test]
fn should_accept_calls_only_if_token_matches() {
    let config = webhooks();
    assert!(accept_call(&config[0], "hook_1_token", "t".to_owned(), 0, body()).is_ok());
    assert_eq!(
        Err(WebhookError::WrongToken),
        accept_call(&config[1], "WRONG_TOKEN", "t".to_owned(), 0, body())
    );
    assert_eq!(
        Err(WebhookError::WrongToken),
        accept_call(&config[1], "hook_1_token", "t".to_owned(), 0, body())
    );
    assert_eq!(
        Err(WebhookError::WrongToken),
        accept_call(&config[1], "", "t".to_owned(), 0, body())
    );
}

#[test]
fn should_call_the_callback_on_each_event() {
    let config = webhooks();
    let mut received: Vec<Event> = vec![];
    let mut callback = |event: Event| received.push(event);
    if let Ok(event) = accept_call(&config[0], "hook_1_token", "trace".to_owned(), 17, body()) {
        callback(event);
    }
    assert_eq!(1, received.len());
    assert_eq!(
        Event::new("trace".to_owned(), "hook_1_type".to_owned(), 17, body()),
        received[0]
    );
}

#[test]
fn should_return_status_code_ok() {
    let config = MatcherConfig::Ruleset { name: "ruleset".to_owned(), rules: vec![] };
    assert!(matcher_config_into_dto(config).is_ok());
}

#[test]
fn should_return_the_matcher_config() {
    let config = MatcherConfig::Ruleset { name: "ruleset".to_owned(), rules: vec![] };
    let dto = matcher_config_into_dto(config).unwrap();
    assert_eq!(MatcherConfigDto::Ruleset { name: "ruleset".to_owned(), rules: vec![] }, dto);
}

#[test]
fn should_return_the_processed_event() {
    let config = MatcherConfig::Ruleset { name: "ruleset".to_owned(), rules: vec![] };
    let matcher = Matcher::new(&config).unwrap();
    let event = Event::new("id".to_owned(), "my_test_event".to_owned(), 0, vec![]);
    let processed = matcher.process(event);
    assert_eq!("my_test_event", processed.event.event_type);
    assert_eq!(
        ProcessedNode::Ruleset {
            name: "ruleset".to_owned(),
            rules: ProcessedRules { rules: vec![], extracted_vars: vec![] },
        },
        processed.result
    );
}
