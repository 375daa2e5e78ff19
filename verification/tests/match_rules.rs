//! Runtime checks of the match-rule grammar: building, serializing,
//! parsing, and the failure cases.

use zvariant::{MatchRule, MatchRulePathSpec, MessageType, OwnedMatchRule};

#[test]
fn build_and_serialize() {
    let rule = MatchRule::builder()
        .msg_type(MessageType::Signal)
        .sender("org.freedesktop.DBus")
        .interface("org.freedesktop.DBus.Properties")
        .member("PropertiesChanged")
        .build();
    assert_eq!(
        rule.to_string().unwrap(),
        "type='signal',sender='org.freedesktop.DBus',interface='org.freedesktop.DBus.Properties',member='PropertiesChanged'"
    );
}

#[test]
fn serialize_all_message_types() {
    for (t, name) in [
        (MessageType::Error, "error"),
        (MessageType::MethodCall, "method_call"),
        (MessageType::MethodReturn, "method_return"),
        (MessageType::Signal, "signal"),
    ] {
        let rule = MatchRule::builder().msg_type(t).build();
        assert_eq!(rule.to_string().unwrap(), format!("type='{name}'"));
    }
}

#[test]
fn invalid_message_type_cannot_be_serialized() {
    let rule = MatchRule::builder().msg_type(MessageType::Invalid).build();
    assert!(rule.to_string().is_err());
}

#[test]
fn serialize_with_path() {
    let rule = MatchRule::builder()
        .sender("org.example")
        .path("/org/example/Thing")
        .unwrap()
        .build();
    assert_eq!(
        rule.to_string().unwrap(),
        "sender='org.example',path='/org/example/Thing'"
    );

    let rule = MatchRule::builder()
        .path_namespace("/org/example")
        .unwrap()
        .build();
    assert_eq!(rule.to_string().unwrap(), "path_namespace='/org/example'");
}

#[test]
fn parse_round_trip() {
    let text = "type='signal',sender='org.freedesktop.DBus',interface='org.freedesktop.DBus.Properties',member='PropertiesChanged'";
    let rule = MatchRule::try_from(text).unwrap();
    assert_eq!(rule.msg_type(), Some(MessageType::Signal));
    assert_eq!(rule.sender().unwrap(), "org.freedesktop.DBus");
    assert_eq!(rule.interface().unwrap(), "org.freedesktop.DBus.Properties");
    assert_eq!(rule.member().unwrap(), "PropertiesChanged");
    assert_eq!(rule.to_string().unwrap(), text);
}

#[test]
fn parse_all_keys() {
    let text = "type='error',sender='a',interface='b',member='c',path='/d',destination='e',arg0namespace='f',arg='g',arg='h',arg_path='/i'";
    let rule = MatchRule::try_from(text).unwrap();
    assert_eq!(rule.msg_type(), Some(MessageType::Error));
    assert_eq!(rule.sender().unwrap(), "a");
    assert_eq!(rule.interface().unwrap(), "b");
    assert_eq!(rule.member().unwrap(), "c");
    match rule.path_spec().unwrap() {
        MatchRulePathSpec::Path(p) => assert_eq!(p.as_str(), "/d"),
        MatchRulePathSpec::PathNamespace(_) => panic!("expected an exact path"),
    }
    assert_eq!(rule.destination().unwrap(), "e");
    assert_eq!(rule.arg0namespace().unwrap(), "f");
    assert_eq!(rule.args(), &vec!["g".to_string(), "h".to_string()]);
    assert_eq!(rule.arg_paths().len(), 1);
    assert_eq!(rule.arg_paths()[0].as_str(), "/i");
}

#[test]
fn parse_path_namespace() {
    let rule = MatchRule::try_from("path_namespace='/org/example'").unwrap();
    match rule.path_spec().unwrap() {
        MatchRulePathSpec::PathNamespace(p) => assert_eq!(p.as_str(), "/org/example"),
        MatchRulePathSpec::Path(_) => panic!("expected a namespace"),
    }
}

#[test]
fn later_components_overwrite_earlier_ones() {
    let rule = MatchRule::try_from("sender='a',sender='b'").unwrap();
    assert_eq!(rule.sender().unwrap(), "b");
}

#[test]
fn malformed_rules_are_rejected() {
    for text in [
        "",
        "type",
        "=x",
        "type=signal",
        "type='signal",
        "type=signal'",
        "type=''",
        "type='bogus'",
        "unknown='x'",
        "path='no-slash'",
        "path='/trailing/'",
        "arg_path='relative'",
        "sender='a',,sender='b'",
    ] {
        assert!(MatchRule::try_from(text).is_err(), "accepted: {text}");
    }
}

#[test]
fn owned_rule_wraps_and_unwraps() {
    let rule = MatchRule::builder().sender("org.example").build();
    let owned = OwnedMatchRule::from(rule.to_owned());
    assert_eq!(owned.inner().sender().unwrap(), "org.example");
    let back: MatchRule = owned.clone().into();
    assert_eq!(back.sender().unwrap(), "org.example");
    assert_eq!(back.to_string().unwrap(), owned.into_inner().to_string().unwrap());
}

#[test]
fn owned_rule_parses_too() {
    let owned = OwnedMatchRule::try_from("member='Ping'").unwrap();
    assert_eq!(owned.inner().member().unwrap(), "Ping");
    assert!(OwnedMatchRule::try_from("member=Ping").is_err());
}

#[test]
fn clones_are_independent_and_equal_in_content() {
    let rule = MatchRule::try_from("type='signal',arg='x',arg_path='/y'").unwrap();
    let copy = rule.to_owned();
    assert_eq!(copy.to_string().unwrap(), rule.to_string().unwrap());
    let moved = rule.into_owned();
    assert_eq!(moved.to_string().unwrap(), copy.to_string().unwrap());
    let spec = copy.path_spec();
    assert!(spec.is_none());
}

#[test]
fn path_spec_into_owned_keeps_the_path() {
    let rule = MatchRule::try_from("path='/org/example'").unwrap();
    let spec = rule.path_spec().unwrap().clone();
    match spec.into_owned() {
        MatchRulePathSpec::Path(p) => assert_eq!(p.as_str(), "/org/example"),
        MatchRulePathSpec::PathNamespace(_) => panic!("expected an exact path"),
    }
}

#[test]
fn builder_rejects_invalid_paths() {
    assert!(MatchRule::builder().path("no-slash").is_err());
    assert!(MatchRule::builder().path_namespace("/trailing/").is_err());
    assert!(MatchRule::builder().add_arg_path("relative").is_err());
    assert!(MatchRule::builder().add_arg_path("/ok").is_ok());
}

#[test]
fn argument_criteria_are_not_serialized() {
    let rule = MatchRule::try_from("arg='x',arg_path='/y',arg0namespace='z'").unwrap();
    assert_eq!(rule.to_string().unwrap(), "");
}
