use webappanalyzer::{ParseError, Tagged, WappTechVersionPattern, WappTechVersionValue};

#[test]
fn test_parse_tagged() {
    assert_eq!(
        Tagged::parse("pattern", |s| Ok(s.to_string())).unwrap(),
        Tagged {
            inner: "pattern".to_string(),
            confidence: 100,
            version: None,
        }
    );

    assert_eq!(
        Tagged::parse("pattern\\;confidence:80", |s| Ok(s.to_string())).unwrap(),
        Tagged {
            inner: "pattern".to_string(),
            confidence: 80,
            version: None,
        },
    );

    assert_eq!(
        Tagged::parse("(pattern)\\;version:\\1", |s| Ok(s.to_string())).unwrap(),
        Tagged {
            inner: "(pattern)".to_string(),
            confidence: 100,
            version: Some(WappTechVersionPattern::Always(WappTechVersionValue::Var(1))),
        },
    );

    assert_eq!(
        Tagged::parse("(pattern)\\;confidence:80\\;version:\\1?next:\\2", |s| Ok(
            s.to_string()
        ))
        .unwrap(),
        Tagged {
            inner: "(pattern)".to_string(),
            confidence: 80,
            version: Some(WappTechVersionPattern::Conditional {
                cond_var: 1,
                true_expr: Some(WappTechVersionValue::Const("next".into())),
                false_expr: Some(WappTechVersionValue::Var(2)),
            }),
        },
    );
}

#[test]
fn test_parse_wapp_tech_version_pattern() {
    assert_eq!(
        WappTechVersionPattern::parse("v1").unwrap(),
        WappTechVersionPattern::Always(WappTechVersionValue::Const("v1".into())),
    );

    assert_eq!(
        WappTechVersionPattern::parse("\\1").unwrap(),
        WappTechVersionPattern::Always(WappTechVersionValue::Var(1)),
    );

    assert_eq!(
        WappTechVersionPattern::parse("\\1?next:\\2").unwrap(),
        WappTechVersionPattern::Conditional {
            cond_var: 1,
            true_expr: Some(WappTechVersionValue::Const("next".into())),
            false_expr: Some(WappTechVersionValue::Var(2)),
        }
    );

    assert_eq!(
        WappTechVersionPattern::parse("\\1?\\1:legacy").unwrap(),
        WappTechVersionPattern::Conditional {
            cond_var: 1,
            true_expr: Some(WappTechVersionValue::Var(1)),
            false_expr: Some(WappTechVersionValue::Const("legacy".into())),
        }
    );

    assert!(WappTechVersionPattern::parse("conststr?\\1:\\2").is_err());
}

#[test]
fn test_parse_wapp_tech_version_value() {
    assert_eq!(WappTechVersionValue::parse("").unwrap(), None);

    assert_eq!(
        WappTechVersionValue::parse("v1").unwrap(),
        Some(WappTechVersionValue::Const("v1".into())),
    );

    assert_eq!(
        WappTechVersionValue::parse("\\42").unwrap(),
        Some(WappTechVersionValue::Var(42)),
    );

    assert!(WappTechVersionValue::parse("left\\1right").is_err());
}

#[test]
fn directive_defaults_and_overrides() {
    let plain = Tagged::parse("X", |s| Ok(s)).unwrap();
    assert_eq!(plain.confidence, 100);
    assert_eq!(plain.version, None);

    let weighted = Tagged::parse("X\\;confidence:80", |s| Ok(s)).unwrap();
    assert_eq!(weighted.inner, "X");
    assert_eq!(weighted.confidence, 80);
    assert_eq!(weighted.version, None);

    let both = Tagged::parse("X\\;confidence:80\\;version:\\1", |s| Ok(s)).unwrap();
    assert_eq!(both.confidence, 80);
    assert_eq!(
        both.version,
        Some(WappTechVersionPattern::Always(WappTechVersionValue::Var(1)))
    );
}

#[test]
fn later_directive_wins() {
    let t = Tagged::parse("X\\;confidence:10\\;confidence:+020", |s| Ok(s)).unwrap();
    assert_eq!(t.confidence, 20);
}

#[test]
fn conditional_rejects_constant_condition() {
    assert_eq!(
        WappTechVersionPattern::parse("conststr?\\1:\\2"),
        Err(ParseError::ConditionMustReferenceCapture)
    );
    assert_eq!(
        WappTechVersionPattern::parse("?a:b"),
        Err(ParseError::ConditionMustReferenceCapture)
    );
}

#[test]
fn partial_backreference_is_rejected() {
    assert_eq!(
        WappTechVersionValue::parse("left\\1right"),
        Err(ParseError::MalformedBackreference)
    );
    assert_eq!(
        WappTechVersionValue::parse("\\1a"),
        Err(ParseError::MalformedBackreference)
    );
    assert_eq!(
        WappTechVersionValue::parse("\\99999999999999999999999"),
        Err(ParseError::MalformedBackreference)
    );
    assert_eq!(
        WappTechVersionValue::parse("a\\b"),
        Ok(Some(WappTechVersionValue::Const("a\\b".into())))
    );
}

#[test]
fn unknown_directive_is_rejected() {
    assert_eq!(
        Tagged::parse("X\\;colour:red", |s| Ok(s)),
        Err(ParseError::UnknownDirective("colour".to_string()))
    );
}

#[test]
fn directive_without_colon_is_rejected() {
    assert_eq!(
        Tagged::parse("X\\;confidence", |s| Ok(s)),
        Err(ParseError::MalformedDirective)
    );
    assert_eq!(Tagged::parse("X\\;", |s| Ok(s)), Err(ParseError::MalformedDirective));
}

#[test]
fn bad_confidence_is_rejected() {
    assert_eq!(
        Tagged::parse("X\\;confidence:high", |s| Ok(s)),
        Err(ParseError::InvalidConfidence)
    );
    assert_eq!(
        Tagged::parse("X\\;confidence:0", |s| Ok(s)),
        Err(ParseError::InvalidConfidence)
    );
    assert_eq!(
        Tagged::parse("X\\;confidence:101", |s| Ok(s)),
        Err(ParseError::InvalidConfidence)
    );
}

#[test]
fn empty_version_is_rejected() {
    assert_eq!(
        WappTechVersionPattern::parse(""),
        Err(ParseError::EmptyVersionExpression)
    );
    assert_eq!(
        Tagged::parse("X\\;version:", |s| Ok(s)),
        Err(ParseError::EmptyVersionExpression)
    );
}

#[test]
fn conditional_with_empty_branches() {
    assert_eq!(
        WappTechVersionPattern::parse("\\3?:"),
        Ok(WappTechVersionPattern::Conditional {
            cond_var: 3,
            true_expr: None,
            false_expr: None,
        })
    );
}

#[test]
fn line_feed_in_suffix_is_not_conditional() {
    assert_eq!(
        WappTechVersionPattern::parse("a?b:c\nd"),
        Ok(WappTechVersionPattern::Always(WappTechVersionValue::Const(
            "a?b:c\nd".into()
        )))
    );
}

#[test]
fn inner_parser_error_is_returned() {
    let r: Result<Tagged<()>, ParseError> =
        Tagged::parse("X", |_| Err(ParseError::InvalidPattern("X".to_string())));
    assert_eq!(r, Err(ParseError::InvalidPattern("X".to_string())));
}
