use prometheus::safety::{
    build_threat_request, is_empty_reply, malicious_check_plan, malicious_link_report, Match,
    Response, ThreatEntry,
};

fn flagged(url: &str, threat: &str, platform: &str) -> Match {
    Match {
        threat_type: threat.to_string(),
        platform_type: platform.to_string(),
        threat_entry_type: "URL".to_string(),
        threat: ThreatEntry {
            url: url.to_string(),
        },
        threat_entry_metadata: None,
        cache_duration: "300s".to_string(),
    }
}

#[test]
fn request_carries_the_fixed_lists_and_all_urls() {
    let urls = vec!["https://a.example".to_string(), "https://b.example".to_string()];
    let req = build_threat_request(urls, "1.2.3");
    assert_eq!(req.client.client_id, "prometheus");
    assert_eq!(req.client.client_version, "1.2.3");
    assert_eq!(
        req.threat_info.threat_types,
        vec![
            "MALWARE".to_string(),
            "SOCIAL_ENGINEERING".to_string(),
            "UNWANTED_SOFTWARE".to_string(),
            "POTENTIALLY_HARMFUL_APPLICATION".to_string()
        ]
    );
    assert_eq!(req.threat_info.platform_types, vec!["ANY_PLATFORM".to_string()]);
    assert_eq!(req.threat_info.threat_entry_types, vec!["URL".to_string()]);
    let urls_back: Vec<&str> = req
        .threat_info
        .threat_entries
        .iter()
        .map(|t| t.url.as_str())
        .collect();
    assert_eq!(urls_back, vec!["https://a.example", "https://b.example"]);
}

#[test]
fn empty_reply_reads_as_clean() {
    assert!(is_empty_reply("{}"));
    assert!(!is_empty_reply(""));
    assert!(!is_empty_reply("{\"matches\":[]}"));
    assert!(!Response::default().is_malicious());
    let hit = Response {
        matches: vec![flagged("https://a", "MALWARE", "ANY_PLATFORM")],
    };
    assert!(hit.is_malicious());
}

#[test]
fn messages_without_links_skip_the_reputation_call() {
    assert!(malicious_check_plan("a perfectly plain sentence").is_none());
    let links = malicious_check_plan("go to https://example.com now").unwrap();
    assert_eq!(links, vec!["https://example.com".to_string()]);
}

#[test]
fn report_dedups_and_defangs() {
    let matches = vec![
        flagged("https://a/b", "MALWARE", "ANY_PLATFORM"),
        flagged("https://c", "SOCIAL_ENGINEERING", "ANY_PLATFORM"),
    ];
    let report = malicious_link_report(&matches);
    let expected = format!(
        "Greetings and good fortune be upon thee,\n\nMay this correspondence reach thee in the best of health and spirits. We humbly scribe to thee, urgently laying forth a matter of gravest concern. It is with utmost respect that we present these identified links for thy immediate consideration:\n      \n- {}\n      \nOur vigilance hath discovered these links, casting shadows of potential peril. The platforms of {}, in their wisdom, have raised warnings of {} that may lurk therein.\n      \nFurthermore, it is of great import to declare that our loyal automaton, by its design, doth not dispatch links without thy explicit directive. Should an unsolicited link assail thy senses, we beseech thee to dismiss it, for it might be tainted with nefarious designs.\n      \nIn gratitude, we commend thy swift action in attending to this pressing matter. Thy response shall stand as a bulwark safeguarding the security and tranquility of our esteemed recipients.\n      \nWith the utmost esteem and consideration,\n      \nClifton Toaster Reid\nBearer of the Prometheus Banner",
        "https:>>a>b and https:>>c",
        "any platform",
        "malware and social engineering"
    );
    assert_eq!(report, expected);
}
