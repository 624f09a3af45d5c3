//! The rule catalogue and the detectors that run over it.
//!
//! Parsing one User-Agent string is a short conversation with the caller,
//! who owns the pattern scanners and the catalogue database: the caller
//! scans the string once with every scanner ([`Scans`]), starts a
//! [`ParseState`], and then answers each [`Lookup`] it asks for with the
//! catalogue row found (or none) until the lookup is [`Lookup::Done`].
//! Every decision in between (crawler short-cut, keyword prescreen, rule
//! choice, version capture, device-class fall-back, device-brand codes) is
//! made here.
use std::rc::Rc;
use vstd::prelude::*;
use crate::cache::{
    lemma_get_after_put,
    lemma_put_wf,
    lemma_touch_wf,
    lru_capacity,
    lru_contains,
    lru_entries,
    lru_get,
    lru_insert,
    lru_new,
    lru_position,
    lru_put,
    lru_touch,
    lru_wf,
    LruCache,
};
use crate::regex_sequence::{contains_id, keyed_by_rowid, lemma_best_same_keywords, required_words, RegexSequence, RuleMatch, RuleRow};
use crate::ua_info::UaInfo;
use crate::word_detector::{count_table, keyword_seq, WordDetector};

verus! {

/// `class_id` given to every crawler.
pub const CRAWLER_CLASS_ID: u32 = 99;

/// The crawler row found for an exact User-Agent string.
#[derive(Debug)]
pub struct CrawlerRow {
    pub ua: String,
    pub ua_version: String,
    pub ua_version_major: String,
    pub crawler_last_seen: String,
    pub crawler_respect_robotstxt: String,
    pub crawler_category: String,
    pub crawler_category_code: String,
    pub ua_family: String,
    pub ua_family_code: String,
    pub ua_family_vendor: String,
    pub ua_family_vendor_code: String,
}

/// The client row of a winning client rule.
#[derive(Debug)]
pub struct ClientRow {
    pub client_id: Option<u32>,
    pub class_id: Option<u32>,
    pub ua_class: String,
    pub ua_class_code: String,
    pub ua: String,
    pub ua_engine: String,
    pub ua_uptodate_current_version: String,
    pub ua_family: String,
    pub ua_family_code: String,
    pub ua_family_vendor: String,
    pub ua_family_vendor_code: String,
}

/// The operating-system row of a winning os rule.
#[derive(Debug)]
pub struct OsRow {
    pub os_family: String,
    pub os_family_code: String,
    pub os: String,
    pub os_code: String,
    pub os_family_vendor: String,
    pub os_family_vendor_code: String,
}

/// The device-class row of a winning device-class rule, or of a client
/// class.
#[derive(Debug)]
pub struct DeviceClassRow {
    pub device_class: String,
    pub device_class_code: String,
}

/// The device-name row for a device-name rule and a captured code.
#[derive(Debug)]
pub struct DeviceNameRow {
    pub device_marketname: String,
    pub device_brand_code: String,
    pub device_brand: String,
}

/// A catalogue row handed back for a lookup.
#[derive(Debug)]
pub enum Row {
    Crawler(CrawlerRow),
    Client(ClientRow),
    Os(OsRow),
    DeviceClass(DeviceClassRow),
    DeviceName(DeviceNameRow),
}

/// The catalogue lookup that parsing waits for.
#[derive(Debug)]
pub enum Lookup {
    /// The crawler row whose User-Agent string equals the subject.
    Crawler,
    /// The client row of the client rule at this rowid.
    Client(u16),
    /// The os row of the os rule at this rowid.
    Os(u16),
    /// The device-class row of the device-class rule at this rowid.
    DeviceClass(u16),
    /// The device class of this client class id.
    ClientClass(u32),
    /// The device-name row for this device-name rule id and captured code.
    DeviceName(u16, String),
    /// Nothing more: the record is complete.
    Done,
}

/// What every scanner reported for the subject, in report order: the
/// word ids of each keyword index and the rules of each rule list.
#[derive(Debug)]
pub struct Scans {
    pub client_words: Vec<u16>,
    pub client_rules: Vec<RuleMatch>,
    pub os_words: Vec<u16>,
    pub os_rules: Vec<RuleMatch>,
    pub device_class_words: Vec<u16>,
    pub device_class_rules: Vec<RuleMatch>,
    pub device_name_rules: Vec<RuleMatch>,
}

/// One parse in progress.
#[derive(Debug)]
pub struct ParseState {
    /// The record filled so far.
    pub info: UaInfo,
    /// The lookup to answer next.
    pub next: Lookup,
    /// The scans of the subject.
    pub scans: Scans,
    /// The capture of the winning client rule, while its row is awaited.
    pub client_capture: Option<String>,
}

/// `major` is the part of `version` before its first '.', or all of it.
pub open spec fn is_major_of(major: Seq<char>, version: Seq<char>) -> bool {
    &&& major.len() <= version.len()
    &&& major == version.take(major.len() as int)
    &&& !major.contains('.')
    &&& (major.len() == version.len() || version[major.len() as int] == '.')
}

/// The word id of an os code in the code table: its position plus one.
pub open spec fn code_word(table: Seq<Seq<char>>, code: Seq<char>) -> Option<u16> {
    if exists|i: int| 0 <= i < table.len() && table[i] == code {
        Some(((choose|i: int| 0 <= i < table.len() && table[i] == code) + 1) as u16)
    } else {
        None
    }
}

/// The candidate keywords of device-name rules: the word ids of the os
/// family code and of the os code, those that the table has.
pub open spec fn brand_keywords(table: Seq<Seq<char>>, family: Seq<char>, os: Seq<char>) -> Seq<u16> {
    (match code_word(table, family) {
        Some(w) => seq![w],
        None => Seq::<u16>::empty(),
    }) + (match code_word(table, os) {
        Some(w) => seq![w],
        None => Seq::<u16>::empty(),
    })
}

/// Rank of a lookup in the fixed detector order; every step lowers it.
pub open spec fn lookup_rank(l: Lookup) -> nat {
    match l {
        Lookup::Crawler => 5,
        Lookup::Client(_) => 4,
        Lookup::Os(_) => 3,
        Lookup::DeviceClass(_) => 2,
        Lookup::ClientClass(_) => 2,
        Lookup::DeviceName(_, _) => 1,
        Lookup::Done => 0,
    }
}

/// `b` is `a` with the crawler row stamped on.
pub open spec fn crawler_stamped(a: UaInfo, b: UaInfo, r: CrawlerRow) -> bool {
    &&& b.same_os_fields(&a)
    &&& b.same_device_class_fields(&a)
    &&& b.same_brand_fields(&a)
    &&& b.ua_string@ == a.ua_string@
    &&& b.class_id == Some(CRAWLER_CLASS_ID)
    &&& b.client_id is None
    &&& b.ua_class@ == "Crawler"@
    &&& b.ua_class_code@ == "crawler"@
    &&& b.ua@ == r.ua@
    &&& b.ua_engine@ == Seq::<char>::empty()
    &&& b.ua_version@ == r.ua_version@
    &&& b.ua_version_major@ == r.ua_version_major@
    &&& b.ua_version_minor@ == a.ua_version_minor@
    &&& b.crawler_last_seen@ == r.crawler_last_seen@
    &&& b.crawler_respect_robotstxt@ == r.crawler_respect_robotstxt@
    &&& b.crawler_category@ == r.crawler_category@
    &&& b.crawler_category_code@ == r.crawler_category_code@
    &&& b.ua_uptodate_current_version@ == Seq::<char>::empty()
    &&& b.ua_family@ == r.ua_family@
    &&& b.ua_family_code@ == r.ua_family_code@
    &&& b.ua_family_vendor@ == r.ua_family_vendor@
    &&& b.ua_family_vendor_code@ == r.ua_family_vendor_code@
}

/// `b` is `a` marked as an unrecognized client.
pub open spec fn unrecognized_stamped(a: UaInfo, b: UaInfo) -> bool {
    &&& b.same_os_fields(&a)
    &&& b.same_device_class_fields(&a)
    &&& b.same_brand_fields(&a)
    &&& b.ua_string@ == a.ua_string@
    &&& b.ua_class@ == "unrecognized"@
    &&& b.ua_class_code@ == "unrecognized"@
    &&& b.class_id == a.class_id
    &&& b.client_id == a.client_id
    &&& b.ua@ == a.ua@
    &&& b.ua_engine@ == a.ua_engine@
    &&& b.ua_version@ == a.ua_version@
    &&& b.ua_version_major@ == a.ua_version_major@
    &&& b.ua_version_minor@ == a.ua_version_minor@
    &&& b.crawler_last_seen@ == a.crawler_last_seen@
    &&& b.crawler_respect_robotstxt@ == a.crawler_respect_robotstxt@
    &&& b.crawler_category@ == a.crawler_category@
    &&& b.crawler_category_code@ == a.crawler_category_code@
    &&& b.ua_uptodate_current_version@ == a.ua_uptodate_current_version@
    &&& b.ua_family@ == a.ua_family@
    &&& b.ua_family_code@ == a.ua_family_code@
    &&& b.ua_family_vendor@ == a.ua_family_vendor@
    &&& b.ua_family_vendor_code@ == a.ua_family_vendor_code@
}

/// The client name before any captured version is appended.
pub open spec fn client_base_ua(a: UaInfo, row: Option<ClientRow>) -> Seq<char> {
    match row {
        Some(r) => r.ua@,
        None => a.ua@,
    }
}

/// `b` is `a` with the client row (if one was found) stamped on and the
/// captured version (if any) applied.
pub open spec fn client_stamped(
    a: UaInfo,
    b: UaInfo,
    row: Option<ClientRow>,
    capture: Option<String>,
) -> bool {
    &&& b.same_os_fields(&a)
    &&& b.same_device_class_fields(&a)
    &&& b.same_brand_fields(&a)
    &&& b.ua_string@ == a.ua_string@
    &&& b.ua_version_minor@ == a.ua_version_minor@
    &&& match row {
        Some(r) => {
            &&& b.client_id == r.client_id
            &&& b.class_id == r.class_id
            &&& b.ua_class@ == r.ua_class@
            &&& b.ua_class_code@ == r.ua_class_code@
            &&& b.ua_engine@ == r.ua_engine@
            &&& b.crawler_last_seen@ == Seq::<char>::empty()
            &&& b.crawler_respect_robotstxt@ == Seq::<char>::empty()
            &&& b.crawler_category@ == Seq::<char>::empty()
            &&& b.crawler_category_code@ == Seq::<char>::empty()
            &&& b.ua_uptodate_current_version@ == r.ua_uptodate_current_version@
            &&& b.ua_family@ == r.ua_family@
            &&& b.ua_family_code@ == r.ua_family_code@
            &&& b.ua_family_vendor@ == r.ua_family_vendor@
            &&& b.ua_family_vendor_code@ == r.ua_family_vendor_code@
        },
        None => {
            &&& b.client_id == a.client_id
            &&& b.class_id == a.class_id
            &&& b.ua_class@ == a.ua_class@
            &&& b.ua_class_code@ == a.ua_class_code@
            &&& b.ua_engine@ == a.ua_engine@
            &&& b.crawler_last_seen@ == a.crawler_last_seen@
            &&& b.crawler_respect_robotstxt@ == a.crawler_respect_robotstxt@
            &&& b.crawler_category@ == a.crawler_category@
            &&& b.crawler_category_code@ == a.crawler_category_code@
            &&& b.ua_uptodate_current_version@ == a.ua_uptodate_current_version@
            &&& b.ua_family@ == a.ua_family@
            &&& b.ua_family_code@ == a.ua_family_code@
            &&& b.ua_family_vendor@ == a.ua_family_vendor@
            &&& b.ua_family_vendor_code@ == a.ua_family_vendor_code@
        },
    }
    &&& match capture {
        Some(c) => {
            &&& b.ua_version@ == c@
            &&& b.ua@ == client_base_ua(a, row) + seq![' '] + c@
            &&& is_major_of(b.ua_version_major@, c@)
        },
        None => {
            &&& b.ua@ == client_base_ua(a, row)
            &&& b.ua_version@ == (if row is Some {
                Seq::<char>::empty()
            } else {
                a.ua_version@
            })
            &&& b.ua_version_major@ == (if row is Some {
                Seq::<char>::empty()
            } else {
                a.ua_version_major@
            })
        },
    }
}

/// `b` is `a` with the os row (if one was found) stamped on.
pub open spec fn os_stamped(a: UaInfo, b: UaInfo, row: Option<OsRow>) -> bool {
    &&& b.same_client_fields(&a)
    &&& b.same_device_class_fields(&a)
    &&& b.same_brand_fields(&a)
    &&& b.ua_string@ == a.ua_string@
    &&& match row {
        Some(r) => {
            &&& b.os_family@ == r.os_family@
            &&& b.os_family_code@ == r.os_family_code@
            &&& b.os@ == r.os@
            &&& b.os_code@ == r.os_code@
            &&& b.os_family_vendor@ == r.os_family_vendor@
            &&& b.os_family_vendor_code@ == r.os_family_vendor_code@
        },
        None => b.same_os_fields(&a),
    }
}

/// `b` is `a` with the device-class row (if one was found) stamped on.
pub open spec fn device_class_stamped(a: UaInfo, b: UaInfo, row: Option<DeviceClassRow>) -> bool {
    &&& b.same_client_fields(&a)
    &&& b.same_os_fields(&a)
    &&& b.same_brand_fields(&a)
    &&& b.ua_string@ == a.ua_string@
    &&& match row {
        Some(r) => {
            &&& b.device_class@ == r.device_class@
            &&& b.device_class_code@ == r.device_class_code@
        },
        None => b.same_device_class_fields(&a),
    }
}

/// `b` is `a` with the device-name row (if one was found) stamped on.
pub open spec fn brand_stamped(a: UaInfo, b: UaInfo, row: Option<DeviceNameRow>) -> bool {
    &&& b.same_client_fields(&a)
    &&& b.same_os_fields(&a)
    &&& b.same_device_class_fields(&a)
    &&& b.ua_string@ == a.ua_string@
    &&& match row {
        Some(r) => {
            &&& b.device_marketname@ == r.device_marketname@
            &&& b.device_brand_code@ == r.device_brand_code@
            &&& b.device_brand@ == r.device_brand@
        },
        None => b.same_brand_fields(&a),
    }
}

/// The client row in a reply, if that is what it holds.
pub open spec fn client_row_of(reply: Option<Row>) -> Option<ClientRow> {
    match reply {
        Some(Row::Client(r)) => Some(r),
        _ => None,
    }
}

/// The os row in a reply, if that is what it holds.
pub open spec fn os_row_of(reply: Option<Row>) -> Option<OsRow> {
    match reply {
        Some(Row::Os(r)) => Some(r),
        _ => None,
    }
}

/// The device-class row in a reply, if that is what it holds.
pub open spec fn device_class_row_of(reply: Option<Row>) -> Option<DeviceClassRow> {
    match reply {
        Some(Row::DeviceClass(r)) => Some(r),
        _ => None,
    }
}

/// The device-name row in a reply, if that is what it holds.
pub open spec fn device_name_row_of(reply: Option<Row>) -> Option<DeviceNameRow> {
    match reply {
        Some(Row::DeviceName(r)) => Some(r),
        _ => None,
    }
}

/// A device-name rule as the catalogue lists it: its required words are
/// an os family code and an os code, "-all-" meaning any.
#[derive(Debug)]
pub struct DeviceNameRule {
    pub rowid: u16,
    pub id: u16,
    pub sequence: u16,
    pub os_family_code: String,
    pub os_code: String,
}

/// The rule tables of a catalogue, as read from its database.
#[derive(Debug)]
pub struct Catalogue {
    pub client_word_ids: Vec<u16>,
    pub client_word_counts: Vec<u16>,
    pub os_word_ids: Vec<u16>,
    pub os_word_counts: Vec<u16>,
    pub device_class_word_ids: Vec<u16>,
    pub device_class_word_counts: Vec<u16>,
    pub client_rules: Vec<RuleRow>,
    pub os_rules: Vec<RuleRow>,
    pub device_class_rules: Vec<RuleRow>,
    pub device_name_rules: Vec<DeviceNameRule>,
}

/// The shorter length of two lists.
pub open spec fn paired_len(a: Seq<u16>, b: Seq<u16>) -> nat {
    if a.len() < b.len() {
        a.len()
    } else {
        b.len()
    }
}

/// The code table after meeting `code`: "-all-" and known codes leave it
/// as it is, a new code is appended.
pub open spec fn with_code(table: Seq<Seq<char>>, code: Seq<char>) -> Seq<Seq<char>> {
    if code == "-all-"@ || table.contains(code) {
        table
    } else {
        table.push(code)
    }
}

/// The code table after meeting each of `codes` in order.
pub open spec fn with_codes(table: Seq<Seq<char>>, codes: Seq<Seq<char>>) -> Seq<Seq<char>>
    decreases codes.len(),
{
    if codes.len() == 0 {
        table
    } else {
        with_code(with_codes(table, codes.drop_last()), codes.last())
    }
}

/// The os family code and os code of each rule, in rule order.
pub open spec fn device_name_codes(rows: Seq<DeviceNameRule>) -> Seq<Seq<char>>
    decreases rows.len(),
{
    if rows.len() == 0 {
        Seq::empty()
    } else {
        device_name_codes(rows.drop_last()) + seq![
            rows.last().os_family_code@,
            rows.last().os_code@,
        ]
    }
}

/// The word id of a code, 0 for one the table lacks (such as "-all-").
pub open spec fn word_or_zero(table: Seq<Seq<char>>, code: Seq<char>) -> u16 {
    match code_word(table, code) {
        Some(w) => w,
        None => 0,
    }
}

/// A device-name rule as an ordinary rule whose two word slots are the
/// word ids of its codes.
pub open spec fn device_name_rule_row(table: Seq<Seq<char>>, r: DeviceNameRule) -> RuleRow {
    RuleRow {
        rowid: r.rowid,
        id: r.id,
        sequence: r.sequence,
        word1: word_or_zero(table, r.os_family_code@),
        word2: word_or_zero(table, r.os_code@),
    }
}

/// The code table after the codes of a prefix of `rows` is no longer than
/// after the codes of all of them.
proof fn lemma_row_prefix_codes(table: Seq<Seq<char>>, rows: Seq<DeviceNameRule>, k: int)
    requires
        0 <= k <= rows.len(),
    ensures
        with_codes(table, device_name_codes(rows.take(k))).len() <= with_codes(
            table,
            device_name_codes(rows),
        ).len(),
    decreases rows.len(),
{
    if k < rows.len() {
        let rest = rows.drop_last();
        assert(rows.take(k) == rest.take(k));
        lemma_row_prefix_codes(table, rest, k);
        let c = device_name_codes(rows);
        let a = rows.last().os_family_code@;
        let b = rows.last().os_code@;
        assert(c == device_name_codes(rest) + seq![a, b]);
        assert(c.drop_last() == device_name_codes(rest) + seq![a]);
        assert(c.drop_last().drop_last() == device_name_codes(rest));
        assert(c.last() == b);
        assert(c.drop_last().last() == a);
        assert(with_codes(table, c.drop_last()) == with_code(
            with_codes(table, device_name_codes(rest)),
            a,
        ));
        assert(with_codes(table, c) == with_code(with_codes(table, c.drop_last()), b));
    } else {
        assert(rows.take(k) == rows);
    }
}

/// The device-name rules whose rowid is among `kept` (the rules whose
/// pattern the scanner accepted), in their order.
pub fn keep_device_name_rules(rows: &Vec<DeviceNameRule>, kept: &Vec<u16>) -> (r: Vec<DeviceNameRule>)
    ensures
        r@ == rows@.filter(|row: DeviceNameRule| kept@.contains(row.rowid)),
{
    let mut r: Vec<DeviceNameRule> = Vec::new();
    let mut i: usize = 0;
    while i < rows.len()
        invariant
            i <= rows.len(),
            r@ == rows@.take(i as int).filter(|row: DeviceNameRule| kept@.contains(row.rowid)),
        decreases rows.len() - i,
    {
        proof {
            reveal(Seq::filter);
            assert(rows@.take(i + 1).drop_last() == rows@.take(i as int));
            assert(rows@.take(i + 1).last() == rows@[i as int]);
        }
        let row = &rows[i];
        if contains_id(kept, row.rowid) {
            r.push(
                DeviceNameRule {
                    rowid: row.rowid,
                    id: row.id,
                    sequence: row.sequence,
                    os_family_code: row.os_family_code.clone(),
                    os_code: row.os_code.clone(),
                },
            );
        }
        i = i + 1;
    }
    proof {
        assert(rows@.take(rows.len() as int) == rows@);
    }
    r
}

/// A repeated parse of the same User-Agent is served from the cache: right
/// after a parse is finished, looking the string up finds that very record
/// and leaves the cache as it was.
pub proof fn lemma_repeat_parse_hits(
    before: UdgerData,
    after: UdgerData,
    ua: Seq<char>,
    record: Rc<UaInfo>,
)
    requires
        before.wf(),
        after.capacity() == before.capacity(),
        after.entries() == lru_put(before.entries(), before.capacity(), ua, record),
    ensures
        after.wf(),
        lru_contains(after.entries(), ua),
        after.entries()[lru_position(after.entries(), ua)].1 == record,
        lru_touch(after.entries(), ua) == after.entries(),
{
    lemma_put_wf(before.entries(), before.capacity(), ua, record);
    lemma_get_after_put(before.entries(), before.capacity(), ua, record);
}

/// Why a parse context could not be made.
#[derive(Debug, PartialEq, Eq, Structural)]
pub enum UdgerError {
    /// The parse cache capacity is zero.
    ZeroCapacity,
}

/// Per-worker parse context: the bounded cache of finished records.
pub struct UdgerData {
    cache: LruCache,
}

impl UdgerData {
    /// The cached (User-Agent, record) pairs, most recently used first.
    pub closed spec fn entries(&self) -> Seq<(Seq<char>, Rc<UaInfo>)> {
        lru_entries(self.cache)
    }

    /// The cache capacity.
    pub closed spec fn capacity(&self) -> nat {
        lru_capacity(self.cache)
    }

    /// Keys are distinct and within capacity.
    pub open spec fn wf(&self) -> bool {
        lru_wf(self.entries(), self.capacity())
    }

    /// The cached record of `ua`, if any; a hit becomes the most recently
    /// used entry.
    pub fn get(&mut self, ua: &String) -> (r: Option<Rc<UaInfo>>)
        requires
            old(self).wf(),
        ensures
            final(self).wf(),
            final(self).capacity() == old(self).capacity(),
            final(self).entries() == lru_touch(old(self).entries(), ua@),
            r == (if lru_contains(old(self).entries(), ua@) {
                Some(old(self).entries()[lru_position(old(self).entries(), ua@)].1)
            } else {
                None
            }),
    {
        proof {
            lemma_touch_wf(self.entries(), self.capacity(), ua@);
        }
        lru_get(&mut self.cache, ua)
    }

    /// Caches `info` as the record of `ua`.
    pub fn set(&mut self, ua: &String, info: Rc<UaInfo>)
        requires
            old(self).wf(),
        ensures
            final(self).wf(),
            final(self).capacity() == old(self).capacity(),
            final(self).entries() == lru_put(old(self).entries(), old(self).capacity(), ua@, info),
    {
        proof {
            lemma_put_wf(self.entries(), self.capacity(), ua@, info);
        }
        lru_insert(&mut self.cache, ua.clone(), info);
    }
}

/// The loaded rule catalogue.
pub struct Udger {
    /// Capacity of the parse cache of each context.
    pub capacity: usize,
    pub client_words_detector: WordDetector,
    pub device_class_words_detector: WordDetector,
    pub os_words_detector: WordDetector,
    pub client_regexes: RegexSequence,
    pub device_class_regexes: RegexSequence,
    pub device_name_regexes: RegexSequence,
    pub os_regexes: RegexSequence,
    /// The distinct os family codes and os codes of the device-name rules;
    /// the word id of `os_codes[i]` is `i + 1`.
    pub os_codes: Vec<String>,
}

impl Udger {
    /// The os code table as text.
    pub open spec fn code_table(&self) -> Seq<Seq<char>> {
        self.os_codes@.map_values(|c: String| c@)
    }

    /// The client and device-name lists report capture groups (versions
    /// and device codes are read from them); the os and device-class lists
    /// do not.
    pub open spec fn capture_lists(&self) -> bool {
        &&& self.client_regexes.captures()
        &&& self.device_name_regexes.captures()
        &&& !self.os_regexes.captures()
        &&& !self.device_class_regexes.captures()
    }

    /// Every rule list is well formed, and the os codes are distinct,
    /// exclude "-all-", and have word ids that fit in `u16`.
    pub open spec fn wf(&self) -> bool {
        &&& self.client_regexes.wf()
        &&& self.device_class_regexes.wf()
        &&& self.device_name_regexes.wf()
        &&& self.os_regexes.wf()
        &&& self.os_codes@.len() < 65535
        &&& forall|i: int, j: int|
            0 <= i < j < self.os_codes@.len() ==> #[trigger] self.os_codes@[i]@
                != #[trigger] self.os_codes@[j]@
        &&& forall|i: int| 0 <= i < self.os_codes@.len() ==> #[trigger] self.os_codes@[i]@ != "-all-"@
    }

    /// The winning client rule for the scans.
    pub open spec fn client_choice(&self, scans: Scans) -> Option<(u16, Option<String>)> {
        self.client_regexes.best(
            scans.client_rules@,
            keyword_seq(self.client_words_detector.counts(), scans.client_words@),
        )
    }

    /// The winning os rule for the scans.
    pub open spec fn os_choice(&self, scans: Scans) -> Option<(u16, Option<String>)> {
        self.os_regexes.best(
            scans.os_rules@,
            keyword_seq(self.os_words_detector.counts(), scans.os_words@),
        )
    }

    /// The winning device-class rule for the scans.
    pub open spec fn device_class_choice(&self, scans: Scans) -> Option<(u16, Option<String>)> {
        self.device_class_regexes.best(
            scans.device_class_rules@,
            keyword_seq(self.device_class_words_detector.counts(), scans.device_class_words@),
        )
    }

    /// The winning device-name rule for the scans, given the os codes found.
    pub open spec fn brand_choice(&self, scans: Scans, info: UaInfo) -> Option<(u16, Option<String>)> {
        self.device_name_regexes.best(
            scans.device_name_rules@,
            brand_keywords(self.code_table(), info.os_family_code@, info.os_code@),
        )
    }

    /// The device-brand lookup: none unless both os codes are known, a
    /// device-name rule wins, its id is known and it captured a code.
    pub open spec fn brand_lookup(&self, scans: Scans, info: UaInfo) -> Lookup {
        if info.os_family_code@.len() == 0 || info.os_code@.len() == 0 {
            Lookup::Done
        } else {
            match self.brand_choice(scans, info) {
                Some((rowid, Some(code))) => if self.device_name_regexes.ids().contains_key(rowid) {
                    Lookup::DeviceName(self.device_name_regexes.ids()[rowid], code)
                } else {
                    Lookup::Done
                },
                _ => Lookup::Done,
            }
        }
    }

    /// The device-class lookup: the winning device-class rule's row, else
    /// the client class's device class when a class id is known, else on to
    /// the device brand.
    pub open spec fn device_class_lookup(&self, scans: Scans, info: UaInfo) -> Lookup {
        match self.device_class_choice(scans) {
            Some((rowid, _)) => Lookup::DeviceClass(rowid),
            None => match info.class_id {
                Some(c) => Lookup::ClientClass(c),
                None => self.brand_lookup(scans, info),
            },
        }
    }

    /// The os lookup: the winning os rule's row, else on to the device
    /// class.
    pub open spec fn os_lookup(&self, scans: Scans, info: UaInfo) -> Lookup {
        match self.os_choice(scans) {
            Some((rowid, _)) => Lookup::Os(rowid),
            None => self.device_class_lookup(scans, info),
        }
    }

    /// The lookups that can follow the client stage all rank below it.
    proof fn lemma_os_lookup_rank(&self, scans: Scans, info: UaInfo)
        ensures
            lookup_rank(self.os_lookup(scans, info)) <= 3,
            lookup_rank(self.device_class_lookup(scans, info)) <= 2,
            lookup_rank(self.brand_lookup(scans, info)) <= 1,
    {
    }

    /// An empty catalogue with the default cache capacity.
    pub fn new() -> (u: Udger)
        ensures
            u.wf(),
            u.capacity == 10000,
            u.client_words_detector.counts() == Map::<u16, u16>::empty(),
            u.os_words_detector.counts() == Map::<u16, u16>::empty(),
            u.device_class_words_detector.counts() == Map::<u16, u16>::empty(),
            u.client_regexes.sequences() == Map::<u16, u16>::empty(),
            u.os_regexes.sequences() == Map::<u16, u16>::empty(),
            u.device_class_regexes.sequences() == Map::<u16, u16>::empty(),
            u.device_name_regexes.sequences() == Map::<u16, u16>::empty(),
            u.code_table() == Seq::<Seq<char>>::empty(),
            u.capture_lists(),
    {
        let mut u = Udger {
            capacity: 10000,
            client_words_detector: WordDetector::new(),
            device_class_words_detector: WordDetector::new(),
            os_words_detector: WordDetector::new(),
            client_regexes: RegexSequence::new(true),
            device_class_regexes: RegexSequence::new(false),
            device_name_regexes: RegexSequence::new(true),
            os_regexes: RegexSequence::new(false),
            os_codes: Vec::new(),
        };
        u.client_words_detector.set_name("client_words_detector");
        u.device_class_words_detector.set_name("device_class_words_detector");
        u.os_words_detector.set_name("os_words_detector");
        u.client_regexes.set_name("client_regexes");
        u.device_class_regexes.set_name("device_class_regexes");
        u.device_name_regexes.set_name("device_name_regexes");
        u.os_regexes.set_name("os_regexes");
        proof {
            assert(u.code_table() =~= Seq::<Seq<char>>::empty());
        }
        u
    }

    /// Loads the rule tables of a catalogue and sets the cache capacity.
    pub fn init(&mut self, catalogue: &Catalogue, capacity: usize)
        requires
            old(self).wf(),
            with_codes(old(self).code_table(), device_name_codes(catalogue.device_name_rules@)).len()
                < 65535,
        ensures
            final(self).wf(),
            final(self).capacity == capacity,
            final(self).capture_lists() == old(self).capture_lists(),
            final(self).client_words_detector.counts() == count_table(
                old(self).client_words_detector.counts(),
                catalogue.client_word_ids@,
                catalogue.client_word_counts@,
                paired_len(catalogue.client_word_ids@, catalogue.client_word_counts@),
            ),
            final(self).os_words_detector.counts() == count_table(
                old(self).os_words_detector.counts(),
                catalogue.os_word_ids@,
                catalogue.os_word_counts@,
                paired_len(catalogue.os_word_ids@, catalogue.os_word_counts@),
            ),
            final(self).device_class_words_detector.counts() == count_table(
                old(self).device_class_words_detector.counts(),
                catalogue.device_class_word_ids@,
                catalogue.device_class_word_counts@,
                paired_len(catalogue.device_class_word_ids@, catalogue.device_class_word_counts@),
            ),
            Udger::loaded(old(self).client_regexes, final(self).client_regexes, catalogue.client_rules@),
            Udger::loaded(old(self).os_regexes, final(self).os_regexes, catalogue.os_rules@),
            Udger::loaded(
                old(self).device_class_regexes,
                final(self).device_class_regexes,
                catalogue.device_class_rules@,
            ),
            final(self).code_table() == with_codes(
                old(self).code_table(),
                device_name_codes(catalogue.device_name_rules@),
            ),
            Udger::loaded(
                old(self).device_name_regexes,
                final(self).device_name_regexes,
                catalogue.device_name_rules@.map_values(
                    |r: DeviceNameRule| device_name_rule_row(final(self).code_table(), r),
                ),
            ),
    {
        self.capacity = capacity;
        self.client_words_detector.init(&catalogue.client_word_ids, &catalogue.client_word_counts);
        self.os_words_detector.init(&catalogue.os_word_ids, &catalogue.os_word_counts);
        self.device_class_words_detector.init(
            &catalogue.device_class_word_ids,
            &catalogue.device_class_word_counts,
        );
        self.client_regexes.init(&catalogue.client_rules);
        self.os_regexes.init(&catalogue.os_rules);
        self.device_class_regexes.init(&catalogue.device_class_rules);
        self.init_device_name_regex_sequence(&catalogue.device_name_rules);
    }

    /// `after` is `before` with `rows` added.
    pub open spec fn loaded(before: RegexSequence, after: RegexSequence, rows: Seq<RuleRow>) -> bool {
        &&& after.captures() == before.captures()
        &&& after.sequences() == keyed_by_rowid(before.sequences(), rows, |r: RuleRow| r.sequence)
        &&& after.ids() == keyed_by_rowid(before.ids(), rows, |r: RuleRow| r.id)
        &&& after.words() == keyed_by_rowid(
            before.words(),
            rows,
            |r: RuleRow| required_words(r.word1, r.word2),
        )
    }

    /// Adds a code to the os code table unless it is "-all-" or known.
    fn add_os_code(&mut self, code: &String)
        requires
            old(self).wf(),
            with_code(old(self).code_table(), code@).len() < 65535,
        ensures
            final(self).wf(),
            final(self).code_table() == with_code(old(self).code_table(), code@),
            final(self).client_regexes == old(self).client_regexes,
            final(self).os_regexes == old(self).os_regexes,
            final(self).device_class_regexes == old(self).device_class_regexes,
            final(self).device_name_regexes == old(self).device_name_regexes,
            final(self).client_words_detector == old(self).client_words_detector,
            final(self).os_words_detector == old(self).os_words_detector,
            final(self).device_class_words_detector == old(self).device_class_words_detector,
            final(self).capacity == old(self).capacity,
    {
        let all = String::from_str("-all-");
        if *code == all {
            return;
        }
        match self.code_word_of(code) {
            Some(_) => {
                proof {
                    let i = choose|i: int|
                        0 <= i < self.code_table().len() && self.code_table()[i] == code@;
                    assert(self.code_table().contains(code@));
                }
            },
            None => {
                let ghost before = self.code_table();
                proof {
                    if before.contains(code@) {
                        let i = choose|i: int| 0 <= i < before.len() && before[i] == code@;
                        assert(exists|i: int| 0 <= i < before.len() && before[i] == code@);
                    }
                }
                self.os_codes.push(code.clone());
                proof {
                    assert(self.code_table() =~= before.push(code@));
                    assert forall|i: int, j: int|
                        0 <= i < j < self.os_codes@.len() implies #[trigger] self.os_codes@[i]@
                        != #[trigger] self.os_codes@[j]@ by {
                        if j == self.os_codes@.len() - 1 {
                            assert(before[i] == self.os_codes@[i]@);
                        }
                    }
                }
            },
        }
    }

    /// Loads the device-name rules: first every new os family code and os
    /// code gets the next word id, then each rule is added with the word
    /// ids of its codes as its required words ("-all-" requiring none).
    fn init_device_name_regex_sequence(&mut self, rows: &Vec<DeviceNameRule>)
        requires
            old(self).wf(),
            with_codes(old(self).code_table(), device_name_codes(rows@)).len() < 65535,
        ensures
            final(self).wf(),
            final(self).code_table() == with_codes(old(self).code_table(), device_name_codes(rows@)),
            Udger::loaded(
                old(self).device_name_regexes,
                final(self).device_name_regexes,
                rows@.map_values(|r: DeviceNameRule| device_name_rule_row(final(self).code_table(), r)),
            ),
            final(self).client_regexes == old(self).client_regexes,
            final(self).os_regexes == old(self).os_regexes,
            final(self).device_class_regexes == old(self).device_class_regexes,
            final(self).client_words_detector == old(self).client_words_detector,
            final(self).os_words_detector == old(self).os_words_detector,
            final(self).device_class_words_detector == old(self).device_class_words_detector,
            final(self).capacity == old(self).capacity,
    {
        let ghost table0 = self.code_table();
        let mut i: usize = 0;
        while i < rows.len()
            invariant
                i <= rows@.len(),
                self.wf(),
                with_codes(table0, device_name_codes(rows@)).len() < 65535,
                table0 == old(self).code_table(),
                self.code_table() == with_codes(table0, device_name_codes(rows@.take(i as int))),
                self.client_regexes == old(self).client_regexes,
                self.os_regexes == old(self).os_regexes,
                self.device_class_regexes == old(self).device_class_regexes,
                self.device_name_regexes == old(self).device_name_regexes,
                self.client_words_detector == old(self).client_words_detector,
                self.os_words_detector == old(self).os_words_detector,
                self.device_class_words_detector == old(self).device_class_words_detector,
                self.capacity == old(self).capacity,
            decreases rows@.len() - i,
        {
            let ghost prev = device_name_codes(rows@.take(i as int));
            proof {
                assert(rows@.take(i + 1).drop_last() == rows@.take(i as int));
                let codes = device_name_codes(rows@.take(i + 1));
                assert(codes == prev + seq![rows@[i as int].os_family_code@, rows@[i as int].os_code@]);
                assert(codes.drop_last() == prev + seq![rows@[i as int].os_family_code@]);
                assert(codes.drop_last().drop_last() == prev);
            }
            proof {
                lemma_row_prefix_codes(table0, rows@, i + 1);
                let codes = device_name_codes(rows@.take(i + 1));
                assert(codes.last() == rows@[i as int].os_code@);
                assert(codes.drop_last().last() == rows@[i as int].os_family_code@);
                assert(with_codes(table0, codes.drop_last()) == with_code(
                    with_codes(table0, prev),
                    rows@[i as int].os_family_code@,
                ));
                assert(with_codes(table0, codes) == with_code(
                    with_code(with_codes(table0, prev), rows@[i as int].os_family_code@),
                    rows@[i as int].os_code@,
                ));
            }
            self.add_os_code(&rows[i].os_family_code);
            self.add_os_code(&rows[i].os_code);
            proof {
                let codes = device_name_codes(rows@.take(i + 1));
                assert(codes.last() == rows@[i as int].os_code@);
                assert(codes.drop_last().last() == rows@[i as int].os_family_code@);
                assert(with_codes(table0, codes.drop_last()) == with_code(
                    with_codes(table0, prev),
                    rows@[i as int].os_family_code@,
                ));
                assert(with_codes(table0, codes) == with_code(
                    with_codes(table0, codes.drop_last()),
                    rows@[i as int].os_code@,
                ));
            }
            i = i + 1;
        }
        proof {
            assert(rows@.take(rows@.len() as int) == rows@);
        }
        let ghost table = self.code_table();
        let mut rule_rows: Vec<RuleRow> = Vec::new();
        let mut k: usize = 0;
        while k < rows.len()
            invariant
                k <= rows@.len(),
                self.wf(),
                table == self.code_table(),
                rule_rows@ == rows@.take(k as int).map_values(
                    |r: DeviceNameRule| device_name_rule_row(table, r),
                ),
            decreases rows@.len() - k,
        {
            let row = &rows[k];
            let word1 = match self.code_word_of(&row.os_family_code) {
                Some(w) => w,
                None => 0,
            };
            let word2 = match self.code_word_of(&row.os_code) {
                Some(w) => w,
                None => 0,
            };
            rule_rows.push(
                RuleRow {
                    rowid: row.rowid,
                    id: row.id,
                    sequence: row.sequence,
                    word1,
                    word2,
                },
            );
            proof {
                assert(rule_rows@ =~= rows@.take(k + 1).map_values(
                    |r: DeviceNameRule| device_name_rule_row(table, r),
                ));
            }
            k = k + 1;
        }
        proof {
            assert(rows@.take(rows@.len() as int) == rows@);
        }
        self.device_name_regexes.init(&rule_rows);
    }

    /// The word id of an os code, if the table has it.
    fn code_word_of(&self, code: &String) -> (r: Option<u16>)
        requires
            self.wf(),
        ensures
            r == code_word(self.code_table(), code@),
    {
        let ghost table = self.code_table();
        let mut i: usize = 0;
        while i < self.os_codes.len()
            invariant
                i <= self.os_codes@.len(),
                self.wf(),
                table == self.code_table(),
                forall|j: int| 0 <= j < i ==> table[j] != code@,
            decreases self.os_codes@.len() - i,
        {
            if self.os_codes[i] == *code {
                proof {
                    assert(table[i as int] == code@);
                    let c = choose|c: int| 0 <= c < table.len() && table[c] == code@;
                    if c != i {
                        if c < i {
                            assert(self.os_codes@[c]@ != self.os_codes@[i as int]@);
                        } else {
                            assert(self.os_codes@[i as int]@ != self.os_codes@[c]@);
                        }
                    }
                }
                return Some((i + 1) as u16);
            }
            i = i + 1;
        }
        None
    }

    /// Decides the device-brand lookup.
    fn next_brand_lookup(&self, scans: &Scans, info: &UaInfo) -> (l: Lookup)
        requires
            self.wf(),
        ensures
            l == self.brand_lookup(*scans, *info),
    {
        if info.os_family_code.as_str().unicode_len() == 0 || info.os_code.as_str().unicode_len()
            == 0 {
            return Lookup::Done;
        }
        let mut word_ids: Vec<u16> = Vec::new();
        match self.code_word_of(&info.os_family_code) {
            Some(w) => word_ids.push(w),
            None => {},
        }
        match self.code_word_of(&info.os_code) {
            Some(w) => word_ids.push(w),
            None => {},
        }
        proof {
            assert(word_ids@ =~= brand_keywords(
                self.code_table(),
                info.os_family_code@,
                info.os_code@,
            ));
        }
        match self.device_name_regexes.get_row_id_and_capture(&scans.device_name_rules, &word_ids) {
            None => Lookup::Done,
            Some((rowid, capture)) => match self.device_name_regexes.get_id(rowid) {
                None => Lookup::Done,
                Some(id) => match capture {
                    None => Lookup::Done,
                    Some(code) => Lookup::DeviceName(id, code),
                },
            },
        }
    }

    /// Decides the device-class lookup.
    fn next_device_class_lookup(&self, scans: &Scans, info: &UaInfo) -> (l: Lookup)
        requires
            self.wf(),
        ensures
            l == self.device_class_lookup(*scans, *info),
    {
        match pick_rule(
            &self.device_class_words_detector,
            &self.device_class_regexes,
            &scans.device_class_words,
            &scans.device_class_rules,
        ) {
            Some((rowid, _)) => Lookup::DeviceClass(rowid),
            None => match info.class_id {
                Some(c) => Lookup::ClientClass(c),
                None => self.next_brand_lookup(scans, info),
            },
        }
    }

    /// Decides the os lookup.
    fn next_os_lookup(&self, scans: &Scans, info: &UaInfo) -> (l: Lookup)
        requires
            self.wf(),
        ensures
            l == self.os_lookup(*scans, *info),
    {
        match pick_rule(&self.os_words_detector, &self.os_regexes, &scans.os_words, &scans.os_rules) {
            Some((rowid, _)) => Lookup::Os(rowid),
            None => self.next_device_class_lookup(scans, info),
        }
    }

    /// A parse context whose cache holds up to `capacity` records; fails
    /// when that capacity is zero.
    pub fn alloc_udger_data(&self) -> (r: Result<UdgerData, UdgerError>)
        ensures
            self.capacity == 0 <==> r is Err,
            r matches Err(e) ==> e == UdgerError::ZeroCapacity,
            r matches Ok(d) ==> {
                &&& d.wf()
                &&& d.capacity() == self.capacity
                &&& d.entries() == Seq::<(Seq<char>, Rc<UaInfo>)>::empty()
            },
    {
        if self.capacity == 0 {
            return Err(UdgerError::ZeroCapacity);
        }
        Ok(UdgerData { cache: lru_new(self.capacity) })
    }

    /// Ends a parse: caches its record under `ua` and hands out the shared
    /// record.
    pub fn finish_parse(&self, data: &mut UdgerData, ua: &String, st: ParseState) -> (r: Rc<
        UaInfo,
    >)
        requires
            old(data).wf(),
        ensures
            r == st.info,
            final(data).wf(),
            final(data).capacity() == old(data).capacity(),
            final(data).entries() == lru_put(old(data).entries(), old(data).capacity(), ua@, r),
    {
        let r = Rc::new(st.info);
        data.set(ua, r.clone());
        r
    }

    /// Starts parsing `ua`, whose scans the caller has made.
    pub fn start_parse(&self, ua: &str, scans: Scans) -> (st: ParseState)
        ensures
            st.info.is_fresh_for(ua@),
            st.next == Lookup::Crawler,
            st.scans == scans,
            st.client_capture is None,
    {
        ParseState { info: UaInfo::new(ua), next: Lookup::Crawler, scans, client_capture: None }
    }

    /// Takes the answer to `st.next` (`None`: no row; a row of another kind
    /// than asked for counts as none) and moves on to the next lookup.
    pub fn step(&self, st: &mut ParseState, reply: Option<Row>)
        requires
            self.wf(),
        ensures
            final(st).scans == old(st).scans,
            !(old(st).next is Done) ==> lookup_rank(final(st).next) < lookup_rank(old(st).next),
            match old(st).next {
                Lookup::Crawler => match reply {
                    Some(Row::Crawler(r)) => {
                        &&& crawler_stamped(old(st).info, final(st).info, r)
                        &&& final(st).next == self.os_lookup(old(st).scans, final(st).info)
                    },
                    _ => match self.client_choice(old(st).scans) {
                        None => {
                            &&& unrecognized_stamped(old(st).info, final(st).info)
                            &&& final(st).next == self.os_lookup(old(st).scans, final(st).info)
                        },
                        Some((rowid, capture)) => {
                            &&& final(st).info == old(st).info
                            &&& final(st).next == Lookup::Client(rowid)
                            &&& final(st).client_capture == capture
                        },
                    },
                },
                Lookup::Client(_) => {
                    &&& client_stamped(
                        old(st).info,
                        final(st).info,
                        client_row_of(reply),
                        old(st).client_capture,
                    )
                    &&& final(st).next == self.os_lookup(old(st).scans, final(st).info)
                },
                Lookup::Os(_) => {
                    &&& os_stamped(old(st).info, final(st).info, os_row_of(reply))
                    &&& final(st).next == self.device_class_lookup(old(st).scans, final(st).info)
                },
                Lookup::DeviceClass(_) => {
                    &&& device_class_stamped(
                        old(st).info,
                        final(st).info,
                        device_class_row_of(reply),
                    )
                    &&& final(st).next == self.brand_lookup(old(st).scans, final(st).info)
                },
                Lookup::ClientClass(_) => {
                    &&& device_class_stamped(
                        old(st).info,
                        final(st).info,
                        device_class_row_of(reply),
                    )
                    &&& final(st).next == self.brand_lookup(old(st).scans, final(st).info)
                },
                Lookup::DeviceName(_, _) => {
                    &&& brand_stamped(old(st).info, final(st).info, device_name_row_of(reply))
                    &&& final(st).next == Lookup::Done
                },
                Lookup::Done => {
                    &&& final(st).info == old(st).info
                    &&& final(st).next == Lookup::Done
                },
            },
    {
        match st.next {
            Lookup::Crawler => {
                match reply {
                    Some(Row::Crawler(r)) => {
                        stamp_crawler(&mut st.info, r);
                        proof {
                            self.lemma_os_lookup_rank(st.scans, st.info);
                        }
                        st.next = self.next_os_lookup(&st.scans, &st.info);
                    },
                    _ => {
                        match pick_rule(
                            &self.client_words_detector,
                            &self.client_regexes,
                            &st.scans.client_words,
                            &st.scans.client_rules,
                        ) {
                            None => {
                                mark_unrecognized(&mut st.info);
                                proof {
                                    self.lemma_os_lookup_rank(st.scans, st.info);
                                }
                                st.next = self.next_os_lookup(&st.scans, &st.info);
                            },
                            Some((rowid, capture)) => {
                                st.next = Lookup::Client(rowid);
                                st.client_capture = capture;
                            },
                        }
                    },
                }
            },
            Lookup::Client(_) => {
                let row = match reply {
                    Some(Row::Client(r)) => Some(r),
                    _ => None,
                };
                let capture = st.client_capture.take();
                stamp_client(&mut st.info, row, capture);
                proof {
                    self.lemma_os_lookup_rank(st.scans, st.info);
                }
                st.next = self.next_os_lookup(&st.scans, &st.info);
            },
            Lookup::Os(_) => {
                let row = match reply {
                    Some(Row::Os(r)) => Some(r),
                    _ => None,
                };
                stamp_os(&mut st.info, row);
                proof {
                    self.lemma_os_lookup_rank(st.scans, st.info);
                }
                st.next = self.next_device_class_lookup(&st.scans, &st.info);
            },
            Lookup::DeviceClass(_) | Lookup::ClientClass(_) => {
                let row = match reply {
                    Some(Row::DeviceClass(r)) => Some(r),
                    _ => None,
                };
                stamp_device_class(&mut st.info, row);
                proof {
                    self.lemma_os_lookup_rank(st.scans, st.info);
                }
                st.next = self.next_brand_lookup(&st.scans, &st.info);
            },
            Lookup::DeviceName(_, _) => {
                let row = match reply {
                    Some(Row::DeviceName(r)) => Some(r),
                    _ => None,
                };
                stamp_brand(&mut st.info, row);
                st.next = Lookup::Done;
            },
            Lookup::Done => {},
        }
    }
}

/// The winning rule of `rules` for a subject whose keyword scan of
/// `detector` reported `reported` and whose rule scan reported `found`.
fn pick_rule(
    detector: &WordDetector,
    rules: &RegexSequence,
    reported: &Vec<u16>,
    found: &Vec<RuleMatch>,
) -> (r: Option<(u16, Option<String>)>)
    requires
        rules.wf(),
    ensures
        r == rules.best(found@, keyword_seq(detector.counts(), reported@)),
{
    let word_ids = detector.get_word_ids(reported);
    let r = rules.get_row_id_and_capture(found, &word_ids);
    proof {
        lemma_best_same_keywords(
            rules,
            found@,
            word_ids@,
            keyword_seq(detector.counts(), reported@),
        );
    }
    r
}

/// The part of `version` before its first '.', or all of it.
pub fn version_major(version: &str) -> (major: String)
    ensures
        is_major_of(major@, version@),
{
    let n = version.unicode_len();
    let mut i: usize = 0;
    while i < n
        invariant
            n == version@.len(),
            i <= n,
            forall|j: int| 0 <= j < i ==> version@[j] != '.',
        ensures
            i <= n,
            i == n || version@[i as int] == '.',
            forall|j: int| 0 <= j < i ==> version@[j] != '.',
        decreases n - i,
    {
        if version.get_char(i) == '.' {
            break;
        }
        i = i + 1;
    }
    let major = version.substring_char(0, i);
    proof {
        assert(major@ == version@.take(i as int));
        if major@.contains('.') {
            let j = choose|j: int| 0 <= j < major@.len() && major@[j] == '.';
            assert(version@[j] == '.');
        }
    }
    major.to_owned()
}

/// Stamps the crawler row on the record.
fn stamp_crawler(info: &mut UaInfo, r: CrawlerRow)
    ensures
        crawler_stamped(*old(info), *final(info), r),
{
    let ghost r0 = r;
    info.class_id = Some(CRAWLER_CLASS_ID);
    info.client_id = None;
    info.ua_class = String::from_str("Crawler");
    info.ua_class_code = String::from_str("crawler");
    info.ua = r.ua;
    info.ua_engine = String::new();
    info.ua_version = r.ua_version;
    info.ua_version_major = r.ua_version_major;
    info.crawler_last_seen = r.crawler_last_seen;
    info.crawler_respect_robotstxt = r.crawler_respect_robotstxt;
    info.crawler_category = r.crawler_category;
    info.crawler_category_code = r.crawler_category_code;
    info.ua_uptodate_current_version = String::new();
    info.ua_family = r.ua_family;
    info.ua_family_code = r.ua_family_code;
    info.ua_family_vendor = r.ua_family_vendor;
    info.ua_family_vendor_code = r.ua_family_vendor_code;
}

/// Marks the record as an unrecognized client.
fn mark_unrecognized(info: &mut UaInfo)
    ensures
        unrecognized_stamped(*old(info), *final(info)),
{
    info.ua_class = String::from_str("unrecognized");
    info.ua_class_code = String::from_str("unrecognized");
}

/// Stamps the client row (if found) and applies the captured version.
fn stamp_client(info: &mut UaInfo, row: Option<ClientRow>, capture: Option<String>)
    ensures
        client_stamped(*old(info), *final(info), row, capture),
{
    match row {
        Some(r) => {
            info.client_id = r.client_id;
            info.class_id = r.class_id;
            info.ua_class = r.ua_class;
            info.ua_class_code = r.ua_class_code;
            info.ua = r.ua;
            info.ua_engine = r.ua_engine;
            info.ua_version = String::new();
            info.ua_version_major = String::new();
            info.crawler_last_seen = String::new();
            info.crawler_respect_robotstxt = String::new();
            info.crawler_category = String::new();
            info.crawler_category_code = String::new();
            info.ua_uptodate_current_version = r.ua_uptodate_current_version;
            info.ua_family = r.ua_family;
            info.ua_family_code = r.ua_family_code;
            info.ua_family_vendor = r.ua_family_vendor;
            info.ua_family_vendor_code = r.ua_family_vendor_code;
        },
        None => {},
    }
    match capture {
        Some(c) => {
            let ghost base = info.ua@;
            let space = " ";
            proof {
                reveal_strlit(" ");
                assert(space@ =~= seq![' ']);
            }
            info.ua.append(space);
            info.ua.append(c.as_str());
            assert(info.ua@ == base + seq![' '] + c@);
            info.ua_version_major = version_major(c.as_str());
            info.ua_version = c;
        },
        None => {},
    }
}

/// Stamps the os row, if found.
fn stamp_os(info: &mut UaInfo, row: Option<OsRow>)
    ensures
        os_stamped(*old(info), *final(info), row),
{
    match row {
        Some(r) => {
            info.os_family = r.os_family;
            info.os_family_code = r.os_family_code;
            info.os = r.os;
            info.os_code = r.os_code;
            info.os_family_vendor = r.os_family_vendor;
            info.os_family_vendor_code = r.os_family_vendor_code;
        },
        None => {},
    }
}

/// Stamps the device-class row, if found.
fn stamp_device_class(info: &mut UaInfo, row: Option<DeviceClassRow>)
    ensures
        device_class_stamped(*old(info), *final(info), row),
{
    match row {
        Some(r) => {
            info.device_class = r.device_class;
            info.device_class_code = r.device_class_code;
        },
        None => {},
    }
}

/// Stamps the device-name row, if found.
fn stamp_brand(info: &mut UaInfo, row: Option<DeviceNameRow>)
    ensures
        brand_stamped(*old(info), *final(info), row),
{
    match row {
        Some(r) => {
            info.device_marketname = r.device_marketname;
            info.device_brand_code = r.device_brand_code;
            info.device_brand = r.device_brand;
        },
        None => {},
    }
}

/// A crawler row makes the record a crawler without a client id, and the
/// later os, device-class and device-brand stages (each possibly finding no
/// row) keep it so.
pub proof fn lemma_crawler_record(
    a: UaInfo,
    b: UaInfo,
    r: CrawlerRow,
    after_os: UaInfo,
    os_row: Option<OsRow>,
    after_class: UaInfo,
    class_row: Option<DeviceClassRow>,
    after_brand: UaInfo,
    brand_row: Option<DeviceNameRow>,
)
    requires
        crawler_stamped(a, b, r),
        os_stamped(b, after_os, os_row),
        device_class_stamped(after_os, after_class, class_row),
        brand_stamped(after_class, after_brand, brand_row),
    ensures
        after_brand.ua_class_code@ == "crawler"@,
        after_brand.ua_class@ == "Crawler"@,
        after_brand.client_id is None,
{
}

/// A subject whose client keyword set is empty has no winning client rule,
/// so the client stage marks it unrecognized.
pub proof fn lemma_no_client_keywords(u: &Udger, scans: Scans)
    requires
        keyword_seq(u.client_words_detector.counts(), scans.client_words@).len() == 0,
    ensures
        u.client_choice(scans) is None,
{
}

/// An unrecognized client stays so through the later os, device-class and
/// device-brand stages.
pub proof fn lemma_unrecognized_record(
    a: UaInfo,
    b: UaInfo,
    after_os: UaInfo,
    os_row: Option<OsRow>,
    after_class: UaInfo,
    class_row: Option<DeviceClassRow>,
    after_brand: UaInfo,
    brand_row: Option<DeviceNameRow>,
)
    requires
        unrecognized_stamped(a, b),
        os_stamped(b, after_os, os_row),
        device_class_stamped(after_os, after_class, class_row),
        brand_stamped(after_class, after_brand, brand_row),
    ensures
        after_brand.ua_class@ == "unrecognized"@,
        after_brand.ua_class_code@ == "unrecognized"@,
{
}

/// A non-empty captured client version becomes `ua_version`, and
/// `ua_version_major` is its part before the first '.'.
pub proof fn lemma_captured_version(a: UaInfo, b: UaInfo, row: Option<ClientRow>, capture: String)
    requires
        client_stamped(a, b, row, Some(capture)),
        capture@.len() > 0,
    ensures
        b.ua_version@ == capture@,
        b.ua_version@.len() > 0,
        b.ua_version_major@.len() <= b.ua_version@.len(),
        b.ua_version_major@ == b.ua_version@.take(b.ua_version_major@.len() as int),
        !b.ua_version_major@.contains('.'),
        b.ua_version_major@.len() == b.ua_version@.len() || b.ua_version@[b.ua_version_major@.len() as int] == '.',
{
}

/// The device brand is looked up only when both the os family code and the
/// os code are known; otherwise parsing ends with no brand fields set.
pub proof fn lemma_brand_needs_os_codes(u: &Udger, scans: Scans, info: UaInfo)
    requires
        info.os_family_code@.len() == 0 || info.os_code@.len() == 0,
    ensures
        u.brand_lookup(scans, info) == Lookup::Done,
{
}

} // verus!
