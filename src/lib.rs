//! User-Agent classification engine over a Udger v3 rule catalogue.
//!
//! The engine picks, per rule category, the single winning rule for a
//! User-Agent string: a keyword prescreen yields candidate word ids, an
//! ordered rule list picks the lowest-sequence matching rule whose required
//! words were seen, and four detectors (client, os, device class, device
//! brand) fill a shared [`UaInfo`] record. Pattern scanning and catalogue
//! row lookups are performed by the caller and handed in as plain values.
use vstd::prelude::*;

pub mod cache;
pub mod regex_sequence;
pub mod rule_source;
pub mod ua_info;
pub mod udger;
pub mod word_detector;

pub use crate::cache::LruCache;
pub use crate::regex_sequence::{keep_rules, RegexSequence, RuleMatch, RuleRow};
pub use crate::rule_source::{drop_final_blank, trim_device_name_source, trim_rule_source};
pub use crate::ua_info::UaInfo;
pub use crate::udger::{
    keep_device_name_rules,
    version_major,
    Catalogue,
    ClientRow,
    CrawlerRow,
    DeviceClassRow,
    DeviceNameRow,
    DeviceNameRule,
    Lookup,
    OsRow,
    ParseState,
    Row,
    Scans,
    Udger,
    UdgerData,
    UdgerError,
    CRAWLER_CLASS_ID,
};
pub use crate::word_detector::WordDetector;
