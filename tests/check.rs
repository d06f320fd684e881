use webappanalyzer::{
    aggregate_outcomes, check_rules, compile_rule, compile_rules, Document, DomSource, ParseError,
    Pattern, Tagged, WappAnalyzer, WappCheckResult, WappPage, WappTech, WappTechCheckResult,
    WappTechDomPatttern, WappTechSource,
};

fn outcome(confidence: i32, version: Option<&str>) -> Option<WappTechCheckResult> {
    Some(WappTechCheckResult {
        confidence,
        version: version.map(|v| v.to_string()),
    })
}

fn empty_source(name: &str) -> WappTechSource {
    WappTechSource {
        name: name.to_string(),
        cats: vec![1],
        website: "https://example.com".to_string(),
        description: None,
        cpe: None,
        saas: None,
        oss: None,
        pricing: vec![],
        cert_issuer: None,
        implies: vec![],
        requires: vec![],
        requires_category: vec![],
        excludes: vec![],
        cookies: vec![],
        dom: vec![],
        headers: vec![],
        html: vec![],
        text: vec![],
        url: vec![],
        meta: vec![],
        script_src: vec![],
        scripts: vec![],
    }
}

fn strings(items: &[&str]) -> Vec<String> {
    items.iter().map(|s| s.to_string()).collect()
}

#[test]
fn aggregation_stops_at_full_confidence() {
    let r = aggregate_outcomes(vec![
        outcome(40, Some("a")),
        outcome(100, Some("b")),
        outcome(90, Some("c")),
    ]);
    assert_eq!(r, outcome(100, Some("b")));
}

#[test]
fn rule_list_stops_at_first_full_confidence_rule() {
    let rules = compile_rules(&strings(&[
        "a\\;confidence:40\\;version:first",
        "a\\;version:second",
        "a\\;confidence:90\\;version:third",
        "a\\;version:fourth",
    ]));
    assert_eq!(rules.len(), 4);
    assert_eq!(check_rules(&rules, "abc"), outcome(100, Some("second")));
}

#[test]
fn aggregation_keeps_highest_partial_confidence() {
    let r = aggregate_outcomes(vec![outcome(30, None), outcome(70, None), outcome(50, None)]);
    assert_eq!(r.unwrap().confidence, 70);
    let r = aggregate_outcomes(vec![outcome(70, None), outcome(30, None)]);
    assert_eq!(r.unwrap().confidence, 70);
    let r = aggregate_outcomes(vec![outcome(30, None), outcome(70, None)]);
    assert_eq!(r.unwrap().confidence, 70);
}

#[test]
fn aggregation_prefers_first_of_equal_confidences() {
    let r = aggregate_outcomes(vec![None, outcome(60, Some("x")), outcome(60, Some("y"))]);
    assert_eq!(r, outcome(60, Some("x")));
    assert_eq!(aggregate_outcomes(vec![None, None]), None);
    assert_eq!(aggregate_outcomes(vec![]), None);
}

#[test]
fn categories_do_not_cross() {
    let mut src = empty_source("Server");
    src.headers = vec![("server".to_string(), strings(&["nginx"]))];
    let tech = WappTech::from_source(src);
    let mut page = WappPage::new();
    page.text = Some("server: nginx".to_string());
    assert!(tech.check(&page).is_none());
}

#[test]
fn conditional_version_resolution() {
    let rule = compile_rule("v(\\d+\\.\\d+)?\\;version:\\1?\\1:unknown").unwrap();
    assert_eq!(rule.check("v"), outcome(100, Some("unknown")));
    assert_eq!(rule.check("v3.4"), outcome(100, Some("3.4")));
    let bare = compile_rule("(\\d+\\.\\d+)?\\;version:\\1?\\1:unknown").unwrap();
    assert_eq!(bare.check("3.4"), outcome(100, Some("3.4")));
    assert_eq!(bare.check("none here"), outcome(100, Some("unknown")));
}

#[test]
fn capture_version_resolution() {
    let rule = compile_rule("WordPress (\\d+\\.\\d+)\\;confidence:70\\;version:\\1").unwrap();
    assert_eq!(rule.check("<meta content=\"WordPress 6.4\">"), outcome(70, Some("6.4")));
    assert_eq!(rule.check("Drupal"), None);
}

#[test]
fn missing_group_gives_no_version() {
    let rule = compile_rule("abc\\;version:\\5").unwrap();
    assert_eq!(rule.check("xabcx"), outcome(100, None));
    let whole = compile_rule("abc\\;version:\\0").unwrap();
    assert_eq!(whole.check("abc"), outcome(100, None));
}

#[test]
fn invalid_regex_is_reported() {
    assert_eq!(
        compile_rule("a(b\\;confidence:50").unwrap_err(),
        ParseError::InvalidPattern("a(b".to_string())
    );
    assert!(Pattern::new("a(b").is_none());
    assert_eq!(Pattern::new("a+b").unwrap().as_str(), "a+b");
}

#[test]
fn failed_rules_are_dropped() {
    let rules = compile_rules(&strings(&["ok", "bad(", "x\\;nope:1", "fine\\;confidence:5"]));
    assert_eq!(rules.len(), 2);
    assert_eq!(rules[0].inner.as_str(), "ok");
    assert_eq!(rules[1].inner.as_str(), "fine");
    assert_eq!(rules[1].confidence, 5);
}

#[test]
fn regex_captures_report_groups() {
    let p = Pattern::new("(a)(x)?(b)").unwrap();
    let groups = p.captures("zab").unwrap();
    assert_eq!(
        groups,
        vec![Some("ab".to_string()), Some("a".to_string()), None, Some("b".to_string())]
    );
    assert!(p.captures("zzz").is_none());
}

#[test]
fn header_names_ignore_case() {
    let mut src = empty_source("Server");
    src.headers = vec![(
        "Server".to_string(),
        strings(&["nginx/?([\\d.]+)?\\;version:\\1"]),
    )];
    let tech = WappTech::from_source(src);
    let headers = vec![("server".to_string(), "nginx/1.25.3".to_string())];
    assert_eq!(tech.check_headers(&headers), outcome(100, Some("1.25.3")));
}

#[test]
fn cookie_names_are_exact() {
    let mut src = empty_source("PHP");
    src.cookies = vec![("PHPSESSID".to_string(), strings(&[""]))];
    let tech = WappTech::from_source(src);
    let lower = vec![("phpsessid".to_string(), "1".to_string())];
    assert_eq!(tech.check_cookies(&lower), None);
    let exact = vec![("PHPSESSID".to_string(), "1".to_string())];
    assert_eq!(tech.check_cookies(&exact), outcome(100, None));
}

#[test]
fn categories_fold_in_order() {
    let mut src = empty_source("Shop");
    src.url = strings(&["shop\\;confidence:30"]);
    src.html = strings(&["<shop\\;confidence:60"]);
    src.meta = vec![("generator".to_string(), strings(&["Shop (\\d+)\\;confidence:50\\;version:\\1"]))];
    let tech = WappTech::from_source(src);
    let mut page = WappPage::new();
    page.url = Some("https://shop.example".to_string());
    page.html = Some("<shop>".to_string());
    page.meta = Some(vec![("generator".to_string(), "Shop 7".to_string())]);
    assert_eq!(tech.check(&page), outcome(60, None));
    page.html = None;
    assert_eq!(tech.check(&page), outcome(50, Some("7")));
}

#[test]
fn scripts_are_checked_one_by_one() {
    let mut src = empty_source("jQuery");
    src.script_src = strings(&["jquery-(\\d+\\.\\d+)\\.js\\;version:\\1"]);
    let tech = WappTech::from_source(src);
    let mut page = WappPage::new();
    page.script_src = Some(strings(&["/a.js", "/jquery-3.7.js"]));
    assert_eq!(tech.check(&page), outcome(100, Some("3.7")));
}

#[test]
fn dom_rule_checks_elements() {
    let source = DomSource {
        selector: "meta[name=generator]\\;confidence:20".to_string(),
        exists: None,
        text: None,
        attributes: vec![(
            "content".to_string(),
            strings(&["Ghost (\\d+)\\;confidence:80\\;version:\\1"]),
        )],
    };
    let rule = WappTechDomPatttern::from_source(&source).unwrap();
    let doc = Document::parse("<html><head><meta name=\"generator\" content=\"Ghost 5\"></head></html>");
    assert_eq!(rule.check(&doc), outcome(80, Some("5")));
    let other = Document::parse("<html><body><p>hi</p></body></html>");
    assert_eq!(rule.check(&other), None);
}

#[test]
fn dom_text_rule_reads_element_text() {
    let source = DomSource {
        selector: "p.ver\\;confidence:10".to_string(),
        exists: None,
        text: Some("v(\\d+)\\;confidence:40\\;version:\\1".to_string()),
        attributes: vec![],
    };
    let rule = WappTechDomPatttern::from_source(&source).unwrap();
    let doc = Document::parse("<p class=\"ver\">v9</p>");
    assert_eq!(rule.check(&doc), outcome(40, Some("9")));
}

#[test]
fn dom_exists_check() {
    let rule = WappTechDomPatttern::from_selector("#app\\;version:edge").unwrap();
    let doc = Document::parse("<div id=\"app\"></div>");
    assert_eq!(rule.check(&doc), outcome(100, Some("edge")));
}

#[test]
fn dom_selector_errors() {
    assert_eq!(
        WappTechDomPatttern::from_selector("[[").unwrap_err(),
        ParseError::InvalidSelector("[[".to_string())
    );
    assert_eq!(
        WappTechDomPatttern::from_selector("div\\;version:\\1").unwrap_err(),
        ParseError::VersionNeedsCapture
    );
    let source = DomSource {
        selector: "div\\;confidence:30".to_string(),
        exists: Some("x".to_string()),
        text: None,
        attributes: vec![],
    };
    let rule = WappTechDomPatttern::from_source(&source).unwrap();
    assert_eq!(rule.exists.confidence, 30);
    let t: Result<Tagged<()>, ParseError> = Tagged::parse("x", |s| {
        if s.is_empty() {
            Ok(())
        } else {
            Err(ParseError::UnexpectedContent(s))
        }
    });
    assert_eq!(t, Err(ParseError::UnexpectedContent("x".to_string())));
}

#[test]
fn dom_exists_string_replaces_selector_check() {
    let source = DomSource {
        selector: "div".to_string(),
        exists: Some("\\;confidence:25".to_string()),
        text: None,
        attributes: vec![],
    };
    let rule = WappTechDomPatttern::from_source(&source).unwrap();
    assert_eq!(rule.exists.confidence, 25);
    let doc = Document::parse("<div></div><div></div>");
    assert_eq!(rule.check(&doc), outcome(25, None));
}

#[test]
fn analyzer_reports_found_technologies() {
    let mut analyzer = WappAnalyzer::new_empty();
    let mut a = empty_source("A");
    a.html = strings(&["alpha"]);
    let mut b = empty_source("B");
    b.html = strings(&["beta"]);
    analyzer.add_tech(WappTech::from_source(a));
    analyzer.add_tech(WappTech::from_source(b));
    let mut a2 = empty_source("A");
    a2.html = strings(&["gamma\\;confidence:10"]);
    analyzer.add_tech(WappTech::from_source(a2));
    assert_eq!(analyzer.techs.len(), 2);
    let mut page = WappPage::new();
    page.html = Some("alpha beta gamma".to_string());
    let found = analyzer.check(&page);
    assert_eq!(
        found,
        vec![
            WappCheckResult {
                tech_name: "A".to_string(),
                confidence: 10,
                version: None
            },
            WappCheckResult {
                tech_name: "B".to_string(),
                confidence: 100,
                version: None
            },
        ]
    );
}

#[test]
fn implies_keep_their_tags() {
    let mut src = empty_source("WordPress");
    src.implies = strings(&["PHP\\;confidence:50", "MySQL", "bad\\;x:1"]);
    let tech = WappTech::from_source(src);
    assert_eq!(tech.implies.len(), 2);
    assert_eq!(tech.implies[0].inner, "PHP");
    assert_eq!(tech.implies[0].confidence, 50);
    assert_eq!(tech.implies[1].inner, "MySQL");
}
