use std::rc::Rc;

use udger::{
    keep_device_name_rules, Catalogue, ClientRow, CrawlerRow, DeviceClassRow, DeviceNameRow, DeviceNameRule, Lookup,
    OsRow, Row, RuleMatch, RuleRow, Scans, UaInfo, Udger, UdgerData, UdgerError,
    CRAWLER_CLASS_ID,
};

const FIREFOX: &str = "Mozilla/5.0 (Windows NT 10.0; WOW64; rv:40.0) Gecko/20100101 Firefox/40.0";
const GOOGLEBOT: &str = "Googlebot/2.1 (+http://www.google.com/bot.html)";
const IPAD: &str = "Mozilla/5.0 (iPad; CPU OS 7_0 like Mac OS X) AppleWebKit/537.51.1 (KHTML, like Gecko) Version/7.0 Mobile/11A465 Safari/9537.53";
const CHROME: &str = "Mozilla/5.0 (Windows NT 6.1; Win64; x64) AppleWebKit/537.36 (KHTML, like Gecko) chrome/79.0.3945.117 Safari/537.36";

const CLIENT_WORDS: &[(u16, &str, u16)] =
    &[(1, "firefox", 5), (2, "mozilla", 1000), (3, "chrome", 50), (4, "safari", 80)];
const CLIENT_RULES: &[(u16, u16, &str, u16, u16, u16)] = &[
    (0, 3, r"firefox/([0-9a-z.]+)", 200, 1, 0),
    (1, 4, r"chrome/([0-9.]+)", 150, 3, 0),
    (2, 5, r"version/([0-9.]+).*safari", 300, 4, 0),
];
const OS_WORDS: &[(u16, &str, u16)] = &[(1, "windows nt", 30), (2, "cpu os", 10)];
const OS_RULES: &[(u16, u16, &str, u16, u16, u16)] = &[
    (0, 10, r"windows nt 10\.0", 10, 1, 0),
    (1, 11, r"windows nt 6\.1", 11, 1, 0),
    (2, 12, r"cpu os 7", 20, 2, 0),
];
const DEVICE_CLASS_WORDS: &[(u16, &str, u16)] = &[(1, "ipad", 3)];
const DEVICE_CLASS_RULES: &[(u16, u16, &str, u16, u16, u16)] = &[(0, 3, r"ipad", 1, 1, 0)];
const DEVICE_NAME_RULES: &[(u16, u16, &str, u16, &str, &str)] =
    &[(0, 7, r"(ipad)", 1, "ios", "-all-"), (1, 8, r"(nexus \d+)", 1, "android", "-all-")];

fn s(text: &str) -> String {
    text.to_string()
}

fn word_report(words: &[(u16, &str, u16)], text: &str) -> Vec<u16> {
    let mut hits: Vec<(usize, u16)> = Vec::new();
    for (id, pattern, _) in words {
        let re = regex::RegexBuilder::new(pattern).case_insensitive(true).build().unwrap();
        for m in re.find_iter(text) {
            hits.push((m.end(), *id));
        }
    }
    hits.sort_by_key(|h| h.0);
    hits.into_iter().map(|h| h.1).collect()
}

fn rule_report<A, B>(rules: &[(u16, u16, &str, u16, A, B)], text: &str) -> Vec<RuleMatch> {
    let mut hits: Vec<(usize, RuleMatch)> = Vec::new();
    for (rowid, _, pattern, _, _, _) in rules {
        let re = regex::RegexBuilder::new(pattern).case_insensitive(true).build().unwrap();
        if let Some(caps) = re.captures(text) {
            let end = caps.get(0).unwrap().end();
            let capture = caps.get(1).map(|m| m.as_str().to_string());
            hits.push((end, RuleMatch { rowid: *rowid, capture }));
        }
    }
    hits.sort_by_key(|h| h.0);
    hits.into_iter().map(|h| h.1).collect()
}

fn rule_rows(rules: &[(u16, u16, &str, u16, u16, u16)]) -> Vec<RuleRow> {
    rules
        .iter()
        .map(|&(rowid, id, _, sequence, word1, word2)| RuleRow { rowid, id, sequence, word1, word2 })
        .collect()
}

fn catalogue() -> Catalogue {
    Catalogue {
        client_word_ids: CLIENT_WORDS.iter().map(|w| w.0).collect(),
        client_word_counts: CLIENT_WORDS.iter().map(|w| w.2).collect(),
        os_word_ids: OS_WORDS.iter().map(|w| w.0).collect(),
        os_word_counts: OS_WORDS.iter().map(|w| w.2).collect(),
        device_class_word_ids: DEVICE_CLASS_WORDS.iter().map(|w| w.0).collect(),
        device_class_word_counts: DEVICE_CLASS_WORDS.iter().map(|w| w.2).collect(),
        client_rules: rule_rows(CLIENT_RULES),
        os_rules: rule_rows(OS_RULES),
        device_class_rules: rule_rows(DEVICE_CLASS_RULES),
        device_name_rules: DEVICE_NAME_RULES
            .iter()
            .map(|&(rowid, id, _, sequence, family, os)| DeviceNameRule {
                rowid,
                id,
                sequence,
                os_family_code: s(family),
                os_code: s(os),
            })
            .collect(),
    }
}

fn engine(capacity: usize) -> Udger {
    let mut udger = Udger::new();
    udger.init(&catalogue(), capacity);
    udger
}

fn scans(ua: &str) -> Scans {
    Scans {
        client_words: word_report(CLIENT_WORDS, ua),
        client_rules: rule_report(CLIENT_RULES, ua),
        os_words: word_report(OS_WORDS, ua),
        os_rules: rule_report(OS_RULES, ua),
        device_class_words: word_report(DEVICE_CLASS_WORDS, ua),
        device_class_rules: rule_report(DEVICE_CLASS_RULES, ua),
        device_name_rules: rule_report(DEVICE_NAME_RULES, ua),
    }
}

fn client_row(client_id: u32, name: &str, code: &str, engine: &str) -> ClientRow {
    ClientRow {
        client_id: Some(client_id),
        class_id: Some(0),
        ua_class: s("Browser"),
        ua_class_code: s("browser"),
        ua: s(name),
        ua_engine: s(engine),
        ua_uptodate_current_version: s("50"),
        ua_family: s(name),
        ua_family_code: s(code),
        ua_family_vendor: s("Mozilla Foundation"),
        ua_family_vendor_code: s("mozilla_foundation"),
    }
}

fn os_row(family: &str, family_code: &str, os: &str, code: &str, vendor: &str, vendor_code: &str) -> OsRow {
    OsRow {
        os_family: s(family),
        os_family_code: s(family_code),
        os: s(os),
        os_code: s(code),
        os_family_vendor: s(vendor),
        os_family_vendor_code: s(vendor_code),
    }
}

/// The catalogue database's answer to a lookup.
fn row_store(lookup: &Lookup, ua: &str) -> Option<Row> {
    match lookup {
        Lookup::Crawler if ua == GOOGLEBOT => Some(Row::Crawler(CrawlerRow {
            ua: s("Googlebot/2.1"),
            ua_version: s("2.1"),
            ua_version_major: s("2"),
            crawler_last_seen: s("2017-01-06 08:57:43"),
            crawler_respect_robotstxt: s("yes"),
            crawler_category: s("Search engine bot"),
            crawler_category_code: s("search_engine_bot"),
            ua_family: s("Googlebot"),
            ua_family_code: s("googlebot"),
            ua_family_vendor: s("Google Inc."),
            ua_family_vendor_code: s("google_inc"),
        })),
        Lookup::Client(0) => Some(Row::Client(client_row(3, "Firefox", "firefox", "Gecko"))),
        Lookup::Client(1) => Some(Row::Client(client_row(4, "Chrome", "chrome", "WebKit/Blink"))),
        Lookup::Client(2) => Some(Row::Client(client_row(5, "Safari", "safari", "WebKit"))),
        Lookup::Os(0) => Some(Row::Os(os_row(
            "Windows",
            "windows",
            "Windows 10",
            "windows_10",
            "Microsoft Corporation.",
            "microsoft_corporation",
        ))),
        Lookup::Os(1) => Some(Row::Os(os_row(
            "Windows",
            "windows",
            "Windows 7",
            "windows_7",
            "Microsoft Corporation.",
            "microsoft_corporation",
        ))),
        Lookup::Os(2) => Some(Row::Os(os_row("iOS", "ios", "iOS 7", "ios_7", "Apple Inc.", "apple_inc"))),
        Lookup::DeviceClass(0) => Some(Row::DeviceClass(DeviceClassRow {
            device_class: s("Tablet"),
            device_class_code: s("tablet"),
        })),
        Lookup::ClientClass(0) => Some(Row::DeviceClass(DeviceClassRow {
            device_class: s("Desktop"),
            device_class_code: s("desktop"),
        })),
        Lookup::DeviceName(7, code) if code == "iPad" => Some(Row::DeviceName(DeviceNameRow {
            device_marketname: s("iPad"),
            device_brand_code: s("apple"),
            device_brand: s("Apple"),
        })),
        _ => None,
    }
}

/// Runs the lookups of one parse to completion and returns the lookups asked.
fn run(udger: &Udger, ua: &str) -> (UaInfo, Vec<String>) {
    let mut st = udger.start_parse(ua, scans(ua));
    let mut asked = Vec::new();
    loop {
        if let Lookup::Done = st.next {
            break;
        }
        asked.push(format!("{:?}", st.next));
        let reply = row_store(&st.next, ua);
        udger.step(&mut st, reply);
    }
    (st.info, asked)
}

/// Parses with the context's cache in front, as a worker does.
fn parse(udger: &Udger, data: &mut UdgerData, ua: &str) -> Rc<UaInfo> {
    let key = ua.to_string();
    if let Some(hit) = data.get(&key) {
        return hit;
    }
    let mut st = udger.start_parse(ua, scans(ua));
    while !matches!(st.next, Lookup::Done) {
        let reply = row_store(&st.next, ua);
        udger.step(&mut st, reply);
    }
    udger.finish_parse(data, &key, st)
}

#[test]
fn test_detect_client() {
    let udger = engine(10000);
    let (info, _) = run(&udger, FIREFOX);
    assert_eq!(info.client_id.unwrap(), 3);
    assert_eq!(info.class_id.unwrap(), 0);
    assert_eq!(info.ua, "Firefox 40.0");
    assert_eq!(info.ua_class, "Browser");
    assert_eq!(info.ua_class_code, "browser");
    assert_eq!(info.ua_engine, "Gecko");
    assert_eq!(info.ua_uptodate_current_version, "50");
    assert_eq!(info.ua_family, "Firefox");
    assert_eq!(info.ua_family_code, "firefox");
    assert_eq!(info.ua_version, "40.0");
    assert_eq!(info.ua_version_major, "40");
    assert_eq!(info.ua_family_vendor, "Mozilla Foundation");
    assert_eq!(info.ua_family_vendor_code, "mozilla_foundation");

    let (info, _) = run(&udger, GOOGLEBOT);
    assert_eq!(info.crawler_category, "Search engine bot");
    assert_eq!(info.crawler_category_code, "search_engine_bot");
    assert_eq!(info.crawler_last_seen, "2017-01-06 08:57:43");
    assert_eq!(info.crawler_respect_robotstxt, "yes");
    assert_eq!(info.ua, "Googlebot/2.1");
    assert_eq!(info.ua_class, "Crawler");
    assert_eq!(info.ua_class_code, "crawler");
    assert_eq!(info.ua_family, "Googlebot");
    assert_eq!(info.ua_family_code, "googlebot");
    assert_eq!(info.ua_family_vendor, "Google Inc.");
    assert_eq!(info.ua_family_vendor_code, "google_inc");
    assert_eq!(info.ua_version, "2.1");
    assert_eq!(info.ua_version_major, "2");
    assert_eq!(info.client_id, None);
    assert_eq!(info.class_id, Some(CRAWLER_CLASS_ID));
}

#[test]
fn test_detect_os() {
    let udger = engine(10000);
    let (info, _) = run(&udger, FIREFOX);
    assert_eq!(info.os, "Windows 10");
    assert_eq!(info.os_code, "windows_10");
    assert_eq!(info.os_family, "Windows");
    assert_eq!(info.os_family_code, "windows");
    assert_eq!(info.os_family_vendor, "Microsoft Corporation.");
    assert_eq!(info.os_family_vendor_code, "microsoft_corporation");
}

#[test]
fn test_detect_device_class() {
    let udger = engine(10000);
    let (info, _) = run(&udger, IPAD);
    assert_eq!(info.device_class, "Tablet");
    assert_eq!(info.device_class_code, "tablet");

    let (info, asked) = run(&udger, CHROME);
    assert_eq!(info.device_class, "Desktop");
    assert_eq!(info.device_class_code, "desktop");
    assert!(asked.contains(&String::from("ClientClass(0)")));
}

#[test]
fn test_detect_device_brand() {
    let udger = engine(10000);
    let (info, asked) = run(&udger, IPAD);
    assert_eq!(info.os_family_code, "ios");
    assert_eq!(info.device_brand, "Apple");
    assert_eq!(info.device_brand_code, "apple");
    assert_eq!(info.device_marketname, "iPad");
    assert_eq!(info.ua, "Safari 7.0");
    assert_eq!(
        asked,
        vec!["Crawler", "Client(2)", "Os(2)", "DeviceClass(0)", "DeviceName(7, \"iPad\")"]
    );
}

#[test]
fn test_unrecognized() {
    let udger = engine(10000);
    let mut data = udger.alloc_udger_data().unwrap();
    let ua = String::from("this is not an user-agent");
    let info = parse(&udger, &mut data, &ua);
    assert_eq!(info.ua_class, "unrecognized");
    assert_eq!(info.ua_class_code, "unrecognized");
    assert_eq!(info.crawler_category, "");
    assert_eq!(info.crawler_category_code, "");
    assert_eq!(info.crawler_last_seen, "");
    assert_eq!(info.crawler_respect_robotstxt, "");
    assert_eq!(info.device_brand, "");
    assert_eq!(info.device_brand_code, "");
    assert_eq!(info.device_class, "");
    assert_eq!(info.device_class_code, "");
    assert_eq!(info.device_marketname, "");
    assert_eq!(info.os, "");
    assert_eq!(info.os_code, "");
    assert_eq!(info.os_family, "");
    assert_eq!(info.os_family_code, "");
    assert_eq!(info.os_family_vendor, "");
    assert_eq!(info.os_family_vendor_code, "");
    assert_eq!(info.ua, "");
    assert_eq!(info.ua_engine, "");
    assert_eq!(info.ua_family, "");
    assert_eq!(info.ua_family_code, "");
    assert_eq!(info.ua_family_vendor, "");
    assert_eq!(info.ua_family_vendor_code, "");
    assert_eq!(info.ua_string, ua);
    assert_eq!(info.ua_uptodate_current_version, "");
    assert_eq!(info.ua_version, "");
    assert_eq!(info.ua_version_major, "");
    assert_eq!(info.ua_version_minor, "");
    assert_eq!(info.class_id, None);
    assert_eq!(info.client_id, None);
}

#[test]
fn firefox_scenario_end_to_end() {
    let udger = engine(10000);
    let mut data = udger.alloc_udger_data().unwrap();
    let info = parse(&udger, &mut data, FIREFOX);
    assert_eq!(info.class_id, Some(0));
    assert_eq!(info.client_id, Some(3));
    assert_eq!(info.ua, "Firefox 40.0");
    assert_eq!(info.ua_class, "Browser");
    assert_eq!(info.ua_engine, "Gecko");
    assert_eq!(info.ua_version_major, "40");
    assert_eq!(info.os, "Windows 10");
    assert_eq!(info.os_family_vendor, "Microsoft Corporation.");
    assert_eq!(info.ua_string, FIREFOX);
}

#[test]
fn repeated_parse_is_served_from_cache() {
    let udger = engine(10000);
    let mut data = udger.alloc_udger_data().unwrap();
    let first = parse(&udger, &mut data, FIREFOX);
    let second = parse(&udger, &mut data, FIREFOX);
    assert!(Rc::ptr_eq(&first, &second));
    assert_eq!(first.ua, second.ua);
    assert_eq!(Rc::strong_count(&first), 3);
}

#[test]
fn cache_evicts_least_recently_used() {
    let udger = engine(2);
    let mut data = udger.alloc_udger_data().unwrap();
    let a = String::from("a");
    let b = String::from("b");
    let c = String::from("c");
    data.set(&a, Rc::new(UaInfo::new("a")));
    data.set(&b, Rc::new(UaInfo::new("b")));
    data.set(&c, Rc::new(UaInfo::new("c")));
    assert!(data.get(&a).is_none());
    assert_eq!(data.get(&b).unwrap().ua_string, "b");
    assert_eq!(data.get(&c).unwrap().ua_string, "c");
}

#[test]
fn cache_get_refreshes_entry() {
    let udger = engine(2);
    let mut data = udger.alloc_udger_data().unwrap();
    let a = String::from("a");
    let b = String::from("b");
    let c = String::from("c");
    data.set(&a, Rc::new(UaInfo::new("a")));
    data.set(&b, Rc::new(UaInfo::new("b")));
    assert!(data.get(&a).is_some());
    data.set(&c, Rc::new(UaInfo::new("c")));
    assert!(data.get(&b).is_none());
    assert!(data.get(&a).is_some());
}

#[test]
fn zero_capacity_is_refused() {
    let udger = engine(0);
    assert!(matches!(udger.alloc_udger_data(), Err(UdgerError::ZeroCapacity)));
}

#[test]
fn brand_needs_both_os_codes() {
    let udger = engine(10000);
    let mut st = udger.start_parse(IPAD, scans(IPAD));
    while !matches!(st.next, Lookup::Os(_)) {
        let reply = row_store(&st.next, IPAD);
        udger.step(&mut st, reply);
    }
    udger.step(&mut st, Some(Row::Os(os_row("iOS", "ios", "iOS 7", "", "Apple Inc.", "apple_inc"))));
    assert!(matches!(st.next, Lookup::DeviceClass(0)));
    let reply = row_store(&st.next, IPAD);
    udger.step(&mut st, reply);
    assert!(matches!(st.next, Lookup::Done));
    assert_eq!(st.info.device_brand, "");
    assert_eq!(st.info.device_class, "Tablet");
}

#[test]
fn device_name_rule_needs_its_os_family() {
    let udger = engine(10000);
    let ua = "Mozilla/5.0 (iPad; Nexus 7; CPU OS 7_0 like Mac OS X)";
    let (info, asked) = run(&udger, ua);
    assert_eq!(info.os_family_code, "ios");
    assert!(asked.contains(&String::from("DeviceName(7, \"iPad\")")));
    assert_eq!(info.device_brand, "Apple");
}

#[test]
fn missing_client_row_still_applies_capture() {
    let udger = engine(10000);
    let mut st = udger.start_parse(FIREFOX, scans(FIREFOX));
    udger.step(&mut st, None);
    assert!(matches!(st.next, Lookup::Client(0)));
    udger.step(&mut st, None);
    assert_eq!(st.info.ua, " 40.0");
    assert_eq!(st.info.ua_version, "40.0");
    assert_eq!(st.info.ua_version_major, "40");
    assert!(matches!(st.next, Lookup::Os(0)));
}

#[test]
fn row_of_wrong_kind_counts_as_none() {
    let udger = engine(10000);
    let mut st = udger.start_parse(FIREFOX, scans(FIREFOX));
    udger.step(
        &mut st,
        Some(Row::DeviceClass(DeviceClassRow { device_class: s("x"), device_class_code: s("y") })),
    );
    assert!(matches!(st.next, Lookup::Client(0)));
    assert_eq!(st.info.device_class, "");
}

#[test]
fn os_codes_get_dense_ids_without_all() {
    let udger = engine(10000);
    assert_eq!(udger.os_codes, vec![s("ios"), s("android")]);
}

#[test]
fn capture_lists_are_client_and_device_name() {
    let udger = engine(10);
    assert!(udger.client_regexes.need_capture);
    assert!(udger.device_name_regexes.need_capture);
    assert!(!udger.os_regexes.need_capture);
    assert!(!udger.device_class_regexes.need_capture);
}

#[test]
fn finish_parse_caches_the_record() {
    let udger = engine(4);
    let mut data = udger.alloc_udger_data().unwrap();
    let key = String::from("x");
    let st = udger.start_parse("x", scans("x"));
    let r = udger.finish_parse(&mut data, &key, st);
    assert_eq!(r.ua_string, "x");
    assert!(Rc::ptr_eq(&r, &data.get(&key).unwrap()));
}

#[test]
fn keep_device_name_rules_keeps_compiled_ones() {
    let rules = catalogue().device_name_rules;
    let kept = keep_device_name_rules(&rules, &vec![1]);
    assert_eq!(kept.len(), 1);
    assert_eq!(kept[0].rowid, 1);
    assert_eq!(kept[0].os_family_code, "android");
}
