use tornado_matcher::config::{
    Action, Constraint, Extractor, ExtractorRegex, Filter, MatcherConfig, Operator, Rule,
};
use tornado_matcher::error::MatcherError;
use tornado_matcher::action::{render_all, MatcherActionBuilder};
use tornado_matcher::dispatch::{actions_to_dispatch, ProcessType};
use tornado_matcher::event::Event;
use tornado_matcher::extractor::MatcherExtractorBuilder;
use tornado_matcher::matcher::{Matcher, MatcherNode};
use tornado_matcher::model::{
    ProcessedEvent, ProcessedFilterStatus, ProcessedNode, ProcessedRule, ProcessedRuleStatus,
    ProcessedRules,
};
use tornado_matcher::number::Number;
use tornado_matcher::value::{clone_value, Value};

fn text(s: &str) -> Value {
    Value::Text(s.to_owned())
}

fn equal(first: &str, second: &str) -> Operator {
    Operator::Equal { first: text(first), second: text(second) }
}

fn new_matcher(rules: Vec<Rule>) -> Result<Matcher, MatcherError> {
    Matcher::new(&MatcherConfig::Ruleset { name: "ruleset".to_owned(), rules })
}

fn new_rule(name: &str, operator: Operator) -> Rule {
    let constraint = Constraint { where_operator: Some(operator), with: vec![] };
    Rule {
        name: name.to_owned(),
        do_continue: true,
        active: true,
        actions: vec![],
        description: "".to_owned(),
        constraint,
    }
}

fn extractor(from: &str, regex: &str, group_match_idx: usize) -> Extractor {
    Extractor {
        from: from.to_owned(),
        regex: ExtractorRegex { regex: regex.to_owned(), group_match_idx, all_matches: false },
    }
}

fn email() -> Event {
    Event::new("id".to_owned(), String::from("email"), 0, vec![])
}

fn event_of_type(event_type: &str) -> Event {
    Event::new("id".to_owned(), event_type.to_owned(), 0, vec![])
}

fn rules_of(result: &ProcessedEvent) -> &ProcessedRules {
    match &result.result {
        ProcessedNode::Ruleset { rules, .. } => rules,
        _ => panic!("a ruleset was expected"),
    }
}

fn rule<'a>(rules: &'a ProcessedRules, name: &str) -> &'a ProcessedRule {
    rules.rules.iter().find(|r| r.name == name).unwrap()
}

fn contains_rule(rules: &ProcessedRules, name: &str) -> bool {
    rules.rules.iter().any(|r| r.name == name)
}

fn var<'a>(vars: &'a Vec<(String, Value)>, key: &str) -> Option<&'a Value> {
    vars.iter().find(|(k, _)| k == key).map(|(_, v)| v)
}

fn compiled_names(matcher: &Matcher) -> Vec<String> {
    match matcher.root() {
        MatcherNode::Ruleset { rules, .. } => rules.iter().map(|r| r.name.clone()).collect(),
        _ => panic!("a ruleset was expected"),
    }
}

#[test]
fn should_build_the_matcher() {
    let rule = new_rule("rule_name", equal("1", "1"));
    let matcher = new_matcher(vec![rule]).unwrap();
    assert_eq!(vec!["rule_name".to_owned()], compiled_names(&matcher));
}

#[test]
fn build_should_fail_if_not_unique_name() {
    let rule_1 = new_rule("rule_name", equal("1", "1"));
    let rule_2 = new_rule("rule_name", equal("1", "1"));
    let matcher = new_matcher(vec![rule_1, rule_2]);
    assert!(matcher.is_err());
    match matcher.err().unwrap() {
        MatcherError::NotUniqueName { name } => assert_eq!("rule_name", name),
        _ => assert!(false),
    }
}

#[test]
fn build_should_fail_if_not_unique_priority() {
    let rule_1 = new_rule("rule_1", equal("1", "1"));
    let rule_2 = new_rule("rule_2", equal("1", "1"));
    let matcher = new_matcher(vec![rule_1, rule_2]);
    assert!(matcher.is_ok());
    assert_eq!(vec!["rule_1".to_owned(), "rule_2".to_owned()], compiled_names(&matcher.unwrap()));
}

#[test]
fn should_sort_the_rules_based_on_priority() {
    let rule_1 = new_rule("rule1", equal("1", "1"));
    let rule_2 = new_rule("rule2", equal("1", "1"));
    let rule_3 = new_rule("rule3", equal("1", "1"));
    let rule_4 = new_rule("rule4", equal("1", "1"));
    let matcher = new_matcher(vec![rule_2, rule_1, rule_4, rule_3]).unwrap();
    let names = compiled_names(&matcher);
    assert_eq!(4, names.len());
    assert_eq!("rule2", names[0]);
    assert_eq!("rule1", names[1]);
    assert_eq!("rule4", names[2]);
    assert_eq!("rule3", names[3]);
    let result = matcher.process(email());
    let processed: Vec<&str> = rules_of(&result).rules.iter().map(|r| r.name.as_str()).collect();
    assert_eq!(vec!["rule2", "rule1", "rule4", "rule3"], processed);
}

#[test]
fn should_ignore_non_active_rules() {
    let mut rule_1 = new_rule("rule1", equal("1", "1"));
    rule_1.active = false;
    let rule_2 = new_rule("rule2", equal("1", "1"));
    let mut rule_3 = new_rule("rule3", equal("1", "1"));
    rule_3.active = false;
    let rule_4 = new_rule("rule4", equal("1", "1"));

    let matcher = new_matcher(vec![rule_1, rule_2, rule_3, rule_4]).unwrap();
    let result = matcher.process(email());
    let rules = rules_of(&result);

    let processed: Vec<&str> = rules
        .rules
        .iter()
        .filter(|r| r.status != ProcessedRuleStatus::NotProcessed)
        .map(|r| r.name.as_str())
        .collect();
    assert_eq!(2, processed.len());
    assert_eq!("rule2", processed[0]);
    assert_eq!("rule4", processed[1]);
    assert_eq!(4, rules.rules.len());
    assert_eq!(ProcessedRuleStatus::NotProcessed, rule(rules, "rule1").status);
    assert_eq!(ProcessedRuleStatus::NotProcessed, rule(rules, "rule3").status);
}

#[test]
fn should_return_matching_rules() {
    let rule_1 = new_rule("rule1_email", equal("${event.type}", "email"));
    let rule_2 = new_rule("rule2_sms", equal("${event.type}", "sms"));
    let rule_3 = new_rule("rule3_email", equal("${event.type}", "email"));

    let matcher = new_matcher(vec![rule_1, rule_2, rule_3]).unwrap();
    let result = matcher.process(email());
    let rules = rules_of(&result);

    assert_eq!(3, rules.rules.len());
    assert!(contains_rule(rules, "rule1_email"));
    assert_eq!(ProcessedRuleStatus::Matched, rule(rules, "rule1_email").status);
    assert!(contains_rule(rules, "rule2_sms"));
    assert_eq!(ProcessedRuleStatus::NotMatched, rule(rules, "rule2_sms").status);
    assert!(contains_rule(rules, "rule3_email"));
    assert_eq!(ProcessedRuleStatus::Matched, rule(rules, "rule3_email").status);
}

#[test]
fn should_stop_execution_if_continue_is_false() {
    let rule_1 = new_rule("rule1_email", equal("${event.type}", "email"));
    let mut rule_2 = new_rule("rule2_email", equal("${event.type}", "email"));
    rule_2.do_continue = false;
    let rule_3 = new_rule("rule3_email", equal("${event.type}", "email"));

    let matcher = new_matcher(vec![rule_1, rule_2, rule_3]).unwrap();
    let result = matcher.process(email());
    let rules = rules_of(&result);

    assert_eq!(2, rules.rules.len());
    assert!(contains_rule(rules, "rule1_email"));
    assert_eq!(ProcessedRuleStatus::Matched, rule(rules, "rule1_email").status);
    assert!(contains_rule(rules, "rule2_email"));
    assert_eq!(ProcessedRuleStatus::Matched, rule(rules, "rule2_email").status);
}

#[test]
fn should_not_stop_execution_if_continue_is_false_in_a_non_matching_rule() {
    let rule_1 = new_rule("rule1_email", equal("${event.type}", "email"));
    let mut rule_2 = new_rule("rule2_sms", equal("${event.type}", "sms"));
    rule_2.do_continue = false;
    let rule_3 = new_rule("rule3_email", equal("${event.type}", "email"));

    let matcher = new_matcher(vec![rule_1, rule_2, rule_3]).unwrap();
    let result = matcher.process(email());
    let rules = rules_of(&result);

    assert_eq!(3, rules.rules.len());
    assert!(contains_rule(rules, "rule1_email"));
    assert_eq!(ProcessedRuleStatus::Matched, rule(rules, "rule1_email").status);
    assert!(contains_rule(rules, "rule2_sms"));
    assert_eq!(ProcessedRuleStatus::NotMatched, rule(rules, "rule2_sms").status);
    assert!(contains_rule(rules, "rule3_email"));
    assert_eq!(ProcessedRuleStatus::Matched, rule(rules, "rule3_email").status);
}

#[test]
fn should_return_matching_rules_and_extracted_variables() {
    let mut rule_1 = new_rule("rule1_email", equal("${event.type}", "email"));
    rule_1
        .constraint
        .with
        .push((String::from("extracted_temp"), extractor("${event.type}", r"[ai]+", 0)));

    let matcher = new_matcher(vec![rule_1]).unwrap();
    let result = matcher.process(email());
    let rules = rules_of(&result);

    assert_eq!(1, rules.rules.len());
    assert!(contains_rule(rules, "rule1_email"));
    let rule_1_processed = rule(rules, "rule1_email");
    assert_eq!(ProcessedRuleStatus::Matched, rule_1_processed.status);
    assert!(var(&rules.extracted_vars, "rule1_email.extracted_temp").is_some());
    assert_eq!(&text("ai"), var(&rules.extracted_vars, "rule1_email.extracted_temp").unwrap());
    assert_eq!(&text("ai"), var(&result.extracted_vars, "rule1_email.extracted_temp").unwrap());
}

#[test]
fn should_return_extracted_vars_grouped_by_rule() {
    let mut rule_1 = new_rule("rule1_email", equal("${event.type}", "email"));
    rule_1
        .constraint
        .with
        .push((String::from("extracted_temp"), extractor("${event.type}", r"[ai]+", 0)));
    let mut rule_2 = new_rule("rule2_email", equal("${event.type}", "email"));
    rule_2
        .constraint
        .with
        .push((String::from("extracted_temp"), extractor("${event.type}", r"[em]+", 0)));

    let matcher = new_matcher(vec![rule_1, rule_2]).unwrap();
    let result = matcher.process(email());
    let rules = rules_of(&result);

    assert_eq!(2, rules.rules.len());
    assert_eq!(ProcessedRuleStatus::Matched, rule(rules, "rule1_email").status);
    assert!(var(&rules.extracted_vars, "rule1_email.extracted_temp").is_some());
    assert_eq!(&text("ai"), var(&rules.extracted_vars, "rule1_email.extracted_temp").unwrap());
    assert_eq!(ProcessedRuleStatus::Matched, rule(rules, "rule2_email").status);
    assert!(var(&rules.extracted_vars, "rule2_email.extracted_temp").is_some());
    assert_eq!(&text("em"), var(&rules.extracted_vars, "rule2_email.extracted_temp").unwrap());
}

#[test]
fn should_return_rule_only_if_matches_the_extracted_variables_too() {
    let mut rule_1 = new_rule("rule1_email", equal("${event.type}", "email"));
    rule_1
        .constraint
        .with
        .push((String::from("extracted_temp"), extractor("${event.type}", r"[z]+", 0)));
    let mut rule_2 = new_rule("rule2_email", equal("${event.type}", "email"));
    rule_2
        .constraint
        .with
        .push((String::from("extracted_temp"), extractor("${event.type}", r"[ai]+", 0)));

    let matcher = new_matcher(vec![rule_1, rule_2]).unwrap();
    let result = matcher.process(email());
    let rules = rules_of(&result);

    assert_eq!(2, rules.rules.len());
    let rule_1_processed = rule(rules, "rule1_email");
    assert_eq!(ProcessedRuleStatus::PartiallyMatched, rule_1_processed.status);
    assert!(var(&rules.extracted_vars, "rule1_email.extracted_temp").is_none());
    let rule_2_processed = rule(rules, "rule2_email");
    assert_eq!(ProcessedRuleStatus::Matched, rule_2_processed.status);
    assert!(var(&rules.extracted_vars, "rule2_email.extracted_temp").is_some());
    assert_eq!(&text("ai"), var(&rules.extracted_vars, "rule2_email.extracted_temp").unwrap());
}

#[test]
fn simple_match() {
    let matcher = new_matcher(vec![
        new_rule("r1", equal("${event.type}", "email")),
        new_rule("r2", equal("${event.type}", "sms")),
    ])
    .unwrap();
    let result = matcher.process(email());
    let rules = rules_of(&result);
    assert_eq!(
        vec![
            ProcessedRule {
                name: "r1".to_owned(),
                status: ProcessedRuleStatus::Matched,
                actions: vec![],
                message: None
            },
            ProcessedRule {
                name: "r2".to_owned(),
                status: ProcessedRuleStatus::NotMatched,
                actions: vec![],
                message: None
            },
        ],
        rules.rules
    );
    assert_eq!(email(), result.event);
}

#[test]
fn extraction_chain() {
    let mut r = new_rule("r", equal("${event.type}", "email"));
    r.constraint.with.push(("b".to_owned(), extractor("${_variables.a}", ".", 0)));
    r.constraint.with.push(("a".to_owned(), extractor("${event.type}", "e(.)ail", 1)));
    let matcher = new_matcher(vec![r]).unwrap();
    let result = matcher.process(email());
    let rules = rules_of(&result);
    assert_eq!(ProcessedRuleStatus::Matched, rule(rules, "r").status);
    assert_eq!(
        vec![("r.a".to_owned(), text("m")), ("r.b".to_owned(), text("m"))],
        rules.extracted_vars
    );
}

#[test]
fn extractors_should_run_in_the_order_of_their_names() {
    let mut r = new_rule("r", equal("${event.type}", "email"));
    r.constraint.with.push(("zeta".to_owned(), extractor("${_variables.beta}", "(.)$", 1)));
    r.constraint.with.push(("beta".to_owned(), extractor("${_variables.alpha}", "^..", 0)));
    r.constraint.with.push(("alpha".to_owned(), extractor("${event.type}", "m.*", 0)));
    r.constraint.with.push(("Zulu".to_owned(), extractor("${event.type}", "^.", 0)));
    let matcher = new_matcher(vec![r]).unwrap();
    let result = matcher.process(email());
    let rules = rules_of(&result);
    assert_eq!(
        vec![
            ("r.Zulu".to_owned(), text("e")),
            ("r.alpha".to_owned(), text("mail")),
            ("r.beta".to_owned(), text("ma")),
            ("r.zeta".to_owned(), text("a")),
        ],
        rules.extracted_vars
    );
}

#[test]
fn later_rules_should_see_the_variables_of_earlier_rules_of_the_ruleset() {
    let mut r1 = new_rule("r1", equal("${event.type}", "email"));
    r1.constraint.with.push(("a".to_owned(), extractor("${event.type}", "e(.)ail", 1)));
    let mut r2 = new_rule(
        "r2",
        Operator::Equal { first: text("${_variables.a}"), second: text("m") },
    );
    r2.constraint.where_operator = None;
    r2.actions.push(Action {
        id: "act".to_owned(),
        payload: vec![("seen".to_owned(), text("${_variables.a}"))],
    });
    let matcher = new_matcher(vec![r1, r2]).unwrap();
    let result = matcher.process(email());
    let rules = rules_of(&result);
    // `_variables.a` of r2 is r2's own variable `r2.a`, which nobody extracted.
    assert_eq!(ProcessedRuleStatus::Matched, rule(rules, "r1").status);
    assert_eq!(ProcessedRuleStatus::PartiallyMatched, rule(rules, "r2").status);
    assert_eq!(vec![("r1.a".to_owned(), text("m"))], rules.extracted_vars);
}

#[test]
fn partial_match() {
    let mut r = new_rule("the_rule", equal("${event.type}", "email"));
    r.constraint.with.push(("the_var".to_owned(), extractor("${event.type}", "[0-9]+", 0)));
    r.actions.push(Action { id: "act".to_owned(), payload: vec![("k".to_owned(), text("v"))] });
    let matcher = new_matcher(vec![r]).unwrap();
    let result = matcher.process(email());
    let rules = rules_of(&result);
    let outcome = rule(rules, "the_rule");
    assert_eq!(ProcessedRuleStatus::PartiallyMatched, outcome.status);
    assert!(outcome.actions.is_empty());
    let message = outcome.message.as_ref().unwrap();
    assert!(message.contains("the_var"));
    assert!(message.contains("the_rule"));
    assert_eq!(
        "Matcher process - The event matches the rule [the_rule] but some variables cannot be extracted: [Rule [the_rule]: missing extracted variable [the_var]]",
        message
    );
    assert!(rules.extracted_vars.is_empty());
    assert!(result.extracted_vars.is_empty());
}

#[test]
fn extractor_on_a_compound_value_should_fail_the_rule() {
    let mut r = new_rule("r", equal("${event.type}", "email"));
    r.constraint.with.push(("v".to_owned(), extractor("${event.payload}", ".*", 0)));
    let matcher = new_matcher(vec![r]).unwrap();
    let result = matcher.process(email());
    assert_eq!(ProcessedRuleStatus::PartiallyMatched, rule(rules_of(&result), "r").status);
}

#[test]
fn action_failure_should_roll_back_the_variables_of_the_rule() {
    let mut r1 = new_rule("r1", equal("${event.type}", "email"));
    r1.constraint.with.push(("a".to_owned(), extractor("${event.type}", "e(.)ail", 1)));
    let mut r2 = new_rule("r2", equal("${event.type}", "email"));
    r2.constraint.with.push(("b".to_owned(), extractor("${event.type}", "ma", 0)));
    r2.actions.push(Action {
        id: "act".to_owned(),
        payload: vec![
            ("good".to_owned(), text("${_variables.b}")),
            ("bad".to_owned(), text("${event.payload.missing}")),
        ],
    });
    let matcher = new_matcher(vec![r1, r2]).unwrap();
    let result = matcher.process(email());
    let rules = rules_of(&result);
    assert_eq!(ProcessedRuleStatus::Matched, rule(rules, "r1").status);
    let outcome = rule(rules, "r2");
    assert_eq!(ProcessedRuleStatus::PartiallyMatched, outcome.status);
    assert!(outcome.actions.is_empty());
    assert_eq!(
        "Matcher process - The event matches the rule [r2] and all variables are extracted correctly; however, some actions cannot be resolved: [Rule [r2]: missing extracted variable [bad]]",
        outcome.message.as_ref().unwrap()
    );
    assert_eq!(vec![("r1.a".to_owned(), text("m"))], rules.extracted_vars);
}

#[test]
fn matched_rule_should_render_its_actions() {
    let mut r = new_rule("r", equal("${event.type}", "email"));
    r.constraint.with.push(("a".to_owned(), extractor("${event.type}", "e(.)ail", 1)));
    r.actions.push(Action {
        id: "first".to_owned(),
        payload: vec![
            ("z".to_owned(), text("type is ${event.type}, a is ${_variables.a}")),
            ("a".to_owned(), Value::Array(vec![text("${_variables.a}"), Value::Bool(true)])),
            (
                "m".to_owned(),
                Value::Object(vec![
                    ("y".to_owned(), text("${event.payload}")),
                    ("x".to_owned(), Value::Null),
                ]),
            ),
            ("n".to_owned(), Value::Number(Number::new(2.5f64.to_bits(), "2.5".to_owned()))),
        ],
    });
    r.actions.push(Action { id: "second".to_owned(), payload: vec![] });
    let matcher = new_matcher(vec![r]).unwrap();
    let event = Event::new("id".to_owned(), "email".to_owned(), 7, vec![("k".to_owned(), text("v"))]);
    let result = matcher.process(event);
    let outcome = rule(rules_of(&result), "r");
    assert_eq!(ProcessedRuleStatus::Matched, outcome.status);
    assert_eq!(None, outcome.message);
    assert_eq!(2, outcome.actions.len());
    assert_eq!("first", outcome.actions[0].id);
    assert_eq!(
        vec![
            ("z".to_owned(), text("type is email, a is m")),
            ("a".to_owned(), Value::Array(vec![text("m"), Value::Bool(true)])),
            (
                "m".to_owned(),
                Value::Object(vec![
                    ("y".to_owned(), Value::Object(vec![("k".to_owned(), text("v"))])),
                    ("x".to_owned(), Value::Null),
                ]),
            ),
            ("n".to_owned(), Value::Number(Number::new(2.5f64.to_bits(), "2.5".to_owned()))),
        ],
        outcome.actions[0].payload
    );
    assert_eq!("second", outcome.actions[1].id);
    assert!(outcome.actions[1].payload.is_empty());
}

#[test]
fn filter_gating() {
    let config = MatcherConfig::Filter {
        name: "only_emails".to_owned(),
        filter: Filter {
            description: "".to_owned(),
            active: true,
            filter: Some(equal("${event.type}", "email")),
        },
        nodes: vec![MatcherConfig::Ruleset {
            name: "R".to_owned(),
            rules: vec![new_rule("r1", equal("1", "1"))],
        }],
    };
    let matcher = Matcher::new(&config).unwrap();

    let result = matcher.process(event_of_type("sms"));
    assert_eq!(
        ProcessedNode::Filter {
            name: "only_emails".to_owned(),
            status: ProcessedFilterStatus::NotMatched,
            nodes: vec![]
        },
        result.result
    );

    let result = matcher.process(email());
    match &result.result {
        ProcessedNode::Filter { name, status, nodes } => {
            assert_eq!("only_emails", name);
            assert_eq!(&ProcessedFilterStatus::Matched, status);
            assert_eq!(1, nodes.len());
            match &nodes[0] {
                ProcessedNode::Ruleset { name, rules } => {
                    assert_eq!("R", name);
                    assert_eq!(ProcessedRuleStatus::Matched, rule(rules, "r1").status);
                }
                _ => panic!("a ruleset was expected"),
            }
        }
        _ => panic!("a filter was expected"),
    }
}

#[test]
fn inactive_filter_and_filter_without_condition() {
    let ruleset = |name: &str| MatcherConfig::Ruleset {
        name: name.to_owned(),
        rules: vec![new_rule("r1", equal("1", "1"))],
    };
    let config = MatcherConfig::Filter {
        name: "root".to_owned(),
        filter: Filter { description: "".to_owned(), active: true, filter: None },
        nodes: vec![
            MatcherConfig::Filter {
                name: "off".to_owned(),
                filter: Filter {
                    description: "".to_owned(),
                    active: false,
                    filter: Some(equal("1", "1")),
                },
                nodes: vec![ruleset("under_off")],
            },
            ruleset("beside"),
        ],
    };
    let matcher = Matcher::new(&config).unwrap();
    let result = matcher.process(email());
    match &result.result {
        ProcessedNode::Filter { status, nodes, .. } => {
            assert_eq!(&ProcessedFilterStatus::Matched, status);
            assert_eq!(2, nodes.len());
            assert_eq!(
                ProcessedNode::Filter {
                    name: "off".to_owned(),
                    status: ProcessedFilterStatus::Inactive,
                    nodes: vec![]
                },
                nodes[0]
            );
            assert!(matches!(&nodes[1], ProcessedNode::Ruleset { name, .. } if name == "beside"));
        }
        _ => panic!("a filter was expected"),
    }
}

#[test]
fn inactive_rule() {
    let mut r = new_rule("r", equal("${event.type}", "email"));
    r.active = false;
    r.actions.push(Action { id: "act".to_owned(), payload: vec![] });
    let matcher = new_matcher(vec![r]).unwrap();
    for event_type in ["email", "sms"] {
        let result = matcher.process(event_of_type(event_type));
        assert_eq!(
            vec![ProcessedRule {
                name: "r".to_owned(),
                status: ProcessedRuleStatus::NotProcessed,
                actions: vec![],
                message: None
            }],
            rules_of(&result).rules
        );
    }
}

#[test]
fn inactive_rule_is_not_compiled() {
    let mut r = new_rule("r", equal("${wrong}", "email"));
    r.active = false;
    assert!(new_matcher(vec![r]).is_ok());
    let r = new_rule("r", equal("${wrong}", "email"));
    assert!(matches!(new_matcher(vec![r]), Err(MatcherError::UnknownAccessor { .. })));
}

#[test]
fn rulesets_should_not_see_the_variables_of_one_another() {
    let ruleset = |name: &str, second_reads: &str| {
        let mut extracting = new_rule("r", equal("${event.type}", "email"));
        extracting.constraint.with.push(("a".to_owned(), extractor("${event.type}", "e(.)ail", 1)));
        let mut reading = new_rule("s", equal("1", "1"));
        reading.constraint.with.push(("x".to_owned(), extractor(second_reads, ".*", 0)));
        MatcherConfig::Ruleset { name: name.to_owned(), rules: vec![extracting, reading] }
    };
    let tree = |first: MatcherConfig, second: MatcherConfig| MatcherConfig::Filter {
        name: "root".to_owned(),
        filter: Filter { description: "".to_owned(), active: true, filter: None },
        nodes: vec![first, second],
    };
    let alone_a = Matcher::new(&ruleset("A", "${event.type}")).unwrap().process(email()).result;
    let alone_b = Matcher::new(&ruleset("B", "${event.type}")).unwrap().process(email()).result;

    let result = Matcher::new(&tree(ruleset("A", "${event.type}"), ruleset("B", "${event.type}")))
        .unwrap()
        .process(email());
    match &result.result {
        ProcessedNode::Filter { nodes, .. } => {
            assert_eq!(&alone_a, &nodes[0]);
            assert_eq!(&alone_b, &nodes[1]);
        }
        _ => panic!("a filter was expected"),
    }
    let swapped = Matcher::new(&tree(ruleset("B", "${event.type}"), ruleset("A", "${event.type}")))
        .unwrap()
        .process(email());
    match &swapped.result {
        ProcessedNode::Filter { nodes, .. } => {
            assert_eq!(&alone_b, &nodes[0]);
            assert_eq!(&alone_a, &nodes[1]);
        }
        _ => panic!("a filter was expected"),
    }
    // Both rulesets extract `r.a`: the event's variables hold it once.
    assert_eq!(
        vec![("r.a".to_owned(), text("m")), ("s.x".to_owned(), text("email"))],
        result.extracted_vars
    );
}

#[test]
fn process_should_give_the_same_result_every_time() {
    let mut r = new_rule("r", equal("${event.type}", "email"));
    r.constraint.with.push(("a".to_owned(), extractor("${event.type}", "e(.)ail", 1)));
    r.actions.push(Action {
        id: "act".to_owned(),
        payload: vec![("k".to_owned(), text("${_variables.a}"))],
    });
    let matcher = new_matcher(vec![r]).unwrap();
    let first = matcher.process(email());
    let second = matcher.process(email());
    assert_eq!(first, second);
    assert_eq!(first, second.duplicate());
}

#[test]
fn build_should_fail_on_names_that_are_no_identifiers() {
    for name in ["", "1rule", "rule-name", "rule name", "rule.name", "règle"] {
        let result = new_matcher(vec![new_rule(name, equal("1", "1"))]);
        assert!(matches!(result, Err(MatcherError::NotValidIdOrName { .. })), "{}", name);
        let result =
            Matcher::new(&MatcherConfig::Ruleset { name: name.to_owned(), rules: vec![] });
        assert!(matches!(result, Err(MatcherError::NotValidIdOrName { .. })), "{}", name);
        let result = Matcher::new(&MatcherConfig::Filter {
            name: name.to_owned(),
            filter: Filter { description: "".to_owned(), active: true, filter: None },
            nodes: vec![],
        });
        assert!(matches!(result, Err(MatcherError::NotValidIdOrName { .. })), "{}", name);
        let mut r = new_rule("r", equal("1", "1"));
        r.constraint.with.push((name.to_owned(), extractor("${event.type}", ".", 0)));
        assert!(matches!(new_matcher(vec![r]), Err(MatcherError::NotValidIdOrName { .. })), "{}", name);
    }
    for name in ["_", "a", "A_1", "_rule_9"] {
        assert!(new_matcher(vec![new_rule(name, equal("1", "1"))]).is_ok(), "{}", name);
    }
}

#[test]
fn build_should_fail_on_a_wrong_regular_expression() {
    let r = new_rule("r", Operator::Regex { regex: "[".to_owned(), target: "${event.type}".to_owned() });
    match new_matcher(vec![r]) {
        Err(MatcherError::InvalidRegex { rule, regex, cause }) => {
            assert_eq!("r", rule);
            assert_eq!("[", regex);
            assert!(!cause.is_empty());
        }
        other => panic!("unexpected result: {:?}", other),
    }
    let mut r = new_rule("r", equal("1", "1"));
    r.constraint.with.push(("v".to_owned(), extractor("${event.type}", "(", 0)));
    assert!(matches!(new_matcher(vec![r]), Err(MatcherError::InvalidRegex { .. })));
}

#[test]
fn build_should_fail_on_a_variable_defined_twice() {
    let mut r = new_rule("r", equal("1", "1"));
    r.constraint.with.push(("v".to_owned(), extractor("${event.type}", ".", 0)));
    r.constraint.with.push(("v".to_owned(), extractor("${event.type}", "..", 0)));
    match new_matcher(vec![r]) {
        Err(MatcherError::ConfigurationError { message }) => {
            assert_eq!("Variable [v] of rule [r] is defined twice", message)
        }
        other => panic!("unexpected result: {:?}", other),
    }
}

#[test]
fn build_should_fail_on_a_wrong_action() {
    let mut r = new_rule("r", equal("1", "1"));
    r.actions.push(Action {
        id: "act".to_owned(),
        payload: vec![("k".to_owned(), Value::Array(vec![text("${nothing}")]))],
    });
    match new_matcher(vec![r]) {
        Err(MatcherError::UnknownAccessor { accessor }) => assert_eq!("${nothing}", accessor),
        other => panic!("unexpected result: {:?}", other),
    }
}

#[test]
fn same_rule_name_in_two_rulesets_is_accepted() {
    let ruleset = |name: &str| MatcherConfig::Ruleset {
        name: name.to_owned(),
        rules: vec![new_rule("r", equal("1", "1"))],
    };
    let config = MatcherConfig::Filter {
        name: "root".to_owned(),
        filter: Filter { description: "".to_owned(), active: true, filter: None },
        nodes: vec![ruleset("a"), ruleset("b")],
    };
    assert!(Matcher::new(&config).is_ok());
}

#[test]
fn extractor_should_collect_all_matches() {
    let mut r = new_rule("r", equal("1", "1"));
    r.constraint.with.push((
        "all".to_owned(),
        Extractor {
            from: "${event.payload.text}".to_owned(),
            regex: ExtractorRegex {
                regex: "k=([0-9]+)".to_owned(),
                group_match_idx: 1,
                all_matches: true,
            },
        },
    ));
    let matcher = new_matcher(vec![r]).unwrap();
    let event = |t: &str| {
        Event::new("id".to_owned(), "x".to_owned(), 0, vec![("text".to_owned(), text(t))])
    };
    let result = matcher.process(event("k=1, k=22 and k=333"));
    assert_eq!(
        vec![("r.all".to_owned(), Value::Array(vec![text("1"), text("22"), text("333")]))],
        rules_of(&result).extracted_vars
    );
    let result = matcher.process(event("nothing here"));
    assert_eq!(ProcessedRuleStatus::PartiallyMatched, rule(rules_of(&result), "r").status);
}

#[test]
fn extractor_should_fail_if_the_group_took_no_part() {
    let mut r = new_rule("r", equal("1", "1"));
    r.constraint.with.push(("v".to_owned(), extractor("${event.type}", "(x)|(email)", 1)));
    let matcher = new_matcher(vec![r]).unwrap();
    let result = matcher.process(email());
    assert_eq!(ProcessedRuleStatus::PartiallyMatched, rule(rules_of(&result), "r").status);
    let mut r = new_rule("r", equal("1", "1"));
    r.constraint.with.push(("v".to_owned(), extractor("${event.type}", "(x)|(email)", 2)));
    let matcher = new_matcher(vec![r]).unwrap();
    let result = matcher.process(email());
    assert_eq!(vec![("r.v".to_owned(), text("email"))], rules_of(&result).extracted_vars);
    let mut r = new_rule("r", equal("1", "1"));
    r.constraint.with.push(("v".to_owned(), extractor("${event.type}", "(x)|(email)", 3)));
    let matcher = new_matcher(vec![r]).unwrap();
    let result = matcher.process(email());
    assert_eq!(ProcessedRuleStatus::PartiallyMatched, rule(rules_of(&result), "r").status);
}

#[test]
fn extract_all_should_return_the_variables_and_add_them() {
    let with = vec![
        ("second".to_owned(), extractor("${_variables.first}", "^.", 0)),
        ("first".to_owned(), extractor("${event.type}", "ma.*", 0)),
    ];
    let extractors = MatcherExtractorBuilder::new().build("r", &with).unwrap();
    let names: Vec<&str> = extractors.extractors.iter().map(|x| x.name.as_str()).collect();
    assert_eq!(vec!["first", "second"], names);
    let keys: Vec<&str> = extractors.extractors.iter().map(|x| x.key.as_str()).collect();
    assert_eq!(vec!["r.first", "r.second"], keys);

    let mut vars = vec![("other.v".to_owned(), text("kept")), ("r.second".to_owned(), text("old"))];
    let own = extractors.extract_all(&email(), &mut vars, "r").unwrap();
    assert_eq!(
        vec![("r.first".to_owned(), text("mail")), ("r.second".to_owned(), text("m"))],
        own
    );
    assert_eq!(
        vec![
            ("other.v".to_owned(), text("kept")),
            ("r.second".to_owned(), text("m")),
            ("r.first".to_owned(), text("mail")),
        ],
        vars
    );
}

#[test]
fn extract_all_should_fail_on_the_first_missing_variable() {
    let with = vec![
        ("a".to_owned(), extractor("${event.type}", "ma", 0)),
        ("b".to_owned(), extractor("${event.type}", "[0-9]", 0)),
        ("c".to_owned(), extractor("${event.payload.missing}", ".", 0)),
    ];
    let extractors = MatcherExtractorBuilder::new().build("r", &with).unwrap();
    let mut vars = vec![("other.v".to_owned(), text("kept"))];
    let result = extractors.extract_all(&email(), &mut vars, "r");
    assert_eq!(
        Err(MatcherError::MissingExtractedVariable { rule: "r".to_owned(), variable: "b".to_owned() }),
        result
    );
    assert_eq!(vec![("other.v".to_owned(), text("kept"))], vars);
}

#[test]
fn render_should_fail_on_the_first_entry_that_cannot_be_resolved() {
    let actions = vec![
        Action { id: "good".to_owned(), payload: vec![("k".to_owned(), text("${event.type}"))] },
        Action {
            id: "bad".to_owned(),
            payload: vec![
                ("fine".to_owned(), text("${event.type}")),
                ("nested".to_owned(), Value::Array(vec![text("a ${_variables.none} b")])),
                ("missing".to_owned(), text("${event.payload.none}")),
            ],
        },
    ];
    let compiled = MatcherActionBuilder::new().build("r", &actions).unwrap();
    assert_eq!(
        Err(MatcherError::MissingExtractedVariable {
            rule: "r".to_owned(),
            variable: "nested".to_owned()
        }),
        render_all(&compiled, "r", &email(), &vec![])
    );
    let rendered = compiled[0].render("r", &email(), &vec![]).unwrap();
    assert_eq!("good", rendered.id);
    assert_eq!(vec![("k".to_owned(), text("email"))], rendered.payload);
    let vars = vec![("r.none".to_owned(), Value::Bool(false))];
    let event = Event::new("id".to_owned(), "email".to_owned(), 0, vec![("none".to_owned(), Value::Null)]);
    let rendered = render_all(&compiled, "r", &event, &vars).unwrap();
    assert_eq!(
        vec![
            ("fine".to_owned(), text("email")),
            ("nested".to_owned(), Value::Array(vec![text("a false b")])),
            ("missing".to_owned(), Value::Null),
        ],
        rendered[1].payload
    );
}

#[test]
fn dispatch_should_take_the_actions_of_the_matched_rules() {
    let action = |id: &str, value: &str| Action {
        id: id.to_owned(),
        payload: vec![("k".to_owned(), text(value))],
    };
    let mut matched = new_rule("matched", equal("${event.type}", "email"));
    matched.actions = vec![action("a1", "${event.type}"), action("a2", "x")];
    let mut not_matched = new_rule("not_matched", equal("${event.type}", "sms"));
    not_matched.actions = vec![action("b1", "x")];
    let mut partially = new_rule("partially", equal("${event.type}", "email"));
    partially.actions = vec![action("c1", "x"), action("c2", "${event.payload.missing}")];
    let mut inactive = new_rule("inactive", equal("${event.type}", "email"));
    inactive.active = false;
    inactive.actions = vec![action("d1", "x")];
    let mut last = new_rule("last", equal("${event.type}", "email"));
    last.actions = vec![action("e1", "y")];
    let first_ruleset = MatcherConfig::Ruleset {
        name: "first".to_owned(),
        rules: vec![matched, not_matched, partially, inactive],
    };
    let second_ruleset = MatcherConfig::Ruleset { name: "second".to_owned(), rules: vec![last] };
    let config = MatcherConfig::Filter {
        name: "root".to_owned(),
        filter: Filter { description: "".to_owned(), active: true, filter: None },
        nodes: vec![
            first_ruleset,
            MatcherConfig::Filter {
                name: "inner".to_owned(),
                filter: Filter { description: "".to_owned(), active: true, filter: None },
                nodes: vec![second_ruleset],
            },
        ],
    };
    let processed = Matcher::new(&config).unwrap().process(email());
    let ids = |process_type: ProcessType| -> Vec<(String, Value)> {
        actions_to_dispatch(&processed, process_type)
            .into_iter()
            .map(|a| (a.id.clone(), clone_value(&a.payload[0].1)))
            .collect()
    };
    assert_eq!(
        vec![
            ("a1".to_owned(), text("email")),
            ("a2".to_owned(), text("x")),
            ("e1".to_owned(), text("y")),
        ],
        ids(ProcessType::Full)
    );
    assert!(ids(ProcessType::SkipActions).is_empty());
}
