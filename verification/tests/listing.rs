use bbm::api::{InconsistentIntegerString, Plan, Provider};
use bbm::listing::{choose_plans, filter_providers, find_plan, provider_listed, PlanChoiceError};

fn provider(operator: &str, company: &str, value: &str, is_top: i64) -> Provider {
    Provider {
        key: String::from("1"),
        operator: operator.to_string(),
        company: company.to_string(),
        value: value.to_string(),
        is_top,
        has_plans: 1,
    }
}

fn iis(s: &str) -> InconsistentIntegerString {
    InconsistentIntegerString(s.to_string())
}

fn plan(id: &str) -> Plan {
    Plan {
        plan_id: iis(id),
        plan_db_version: iis("1"),
        mindownload: iis("1000"),
        normdownload: iis("2000"),
        maxdownload: iis("3000"),
        maxdownloadpub: iis("3000"),
        minupload: iis("100"),
        normupload: iis("200"),
        maxupload: iis("300"),
        product_highlighted: iis("0"),
    }
}

#[test]
fn search_ignores_case_and_top_filters() {
    let ps = vec![
        provider("Deutsche Telekom", "Telekom AG", "telekom", 1),
        provider("Vodafone", "Vodafone GmbH", "vodafone", 1),
        provider("Stadtwerke", "SW Nord", "sw-nord", 0),
    ];
    assert!(provider_listed(&ps[0], false, Some("TELEKOM")));
    assert!(!provider_listed(&ps[1], false, Some("telekom")));
    assert!(!provider_listed(&ps[2], true, None));
    let kept = filter_providers(ps, true, Some("o"));
    let names: Vec<&str> = kept.iter().map(|p| p.operator.as_str()).collect();
    assert_eq!(names, vec!["Deutsche Telekom", "Vodafone"]);
}

#[test]
fn search_matches_non_ascii_case_too() {
    let p = provider("Überlandwerk", "ÜW", "uew", 0);
    assert!(provider_listed(&p, false, Some("überland")));
}

#[test]
fn plans_are_chosen_by_identifier() {
    let plans = vec![plan("1"), plan("2"), plan("1")];
    assert_eq!(choose_plans(&plans, None), Ok(vec![0, 1, 2]));
    assert_eq!(choose_plans(&plans, Some("1")), Ok(vec![0, 2]));
    assert_eq!(choose_plans(&plans, Some("9")), Err(PlanChoiceError::PlanNotFound));
    assert_eq!(choose_plans(&Vec::new(), None), Err(PlanChoiceError::NoPlans));
    assert_eq!(find_plan(&plans, "2"), Some(1));
    assert_eq!(find_plan(&plans, "3"), None);
}
