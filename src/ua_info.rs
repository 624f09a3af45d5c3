//! The classification record produced for one User-Agent string.
use vstd::prelude::*;

verus! {

/// Flat classification record for one User-Agent string.
///
/// Every string field defaults to the empty string and both numeric ids
/// default to absent.
#[derive(Debug)]
pub struct UaInfo {
    pub class_id: Option<u32>,
    pub client_id: Option<u32>,
    pub ua_class: String,
    pub ua_class_code: String,
    pub ua: String,
    pub ua_engine: String,
    pub ua_version: String,
    pub ua_version_major: String,
    pub ua_version_minor: String,
    pub crawler_last_seen: String,
    pub crawler_respect_robotstxt: String,
    pub crawler_category: String,
    pub crawler_category_code: String,
    pub ua_uptodate_current_version: String,
    pub ua_family: String,
    pub ua_family_code: String,
    pub ua_family_vendor: String,
    pub ua_family_vendor_code: String,
    pub ua_string: String,
    pub os_family: String,
    pub os_family_code: String,
    pub os: String,
    pub os_code: String,
    pub os_family_vendor: String,
    pub os_family_vendor_code: String,
    pub device_class: String,
    pub device_class_code: String,
    pub device_marketname: String,
    pub device_brand: String,
    pub device_brand_code: String,
}

impl UaInfo {
    /// The client-side fields (everything filled by client or crawler
    /// detection) are all empty and both ids are absent.
    pub open spec fn client_fields_empty(&self) -> bool {
        &&& self.class_id is None
        &&& self.client_id is None
        &&& self.ua_class@.len() == 0
        &&& self.ua_class_code@.len() == 0
        &&& self.ua@.len() == 0
        &&& self.ua_engine@.len() == 0
        &&& self.ua_version@.len() == 0
        &&& self.ua_version_major@.len() == 0
        &&& self.ua_version_minor@.len() == 0
        &&& self.crawler_last_seen@.len() == 0
        &&& self.crawler_respect_robotstxt@.len() == 0
        &&& self.crawler_category@.len() == 0
        &&& self.crawler_category_code@.len() == 0
        &&& self.ua_uptodate_current_version@.len() == 0
        &&& self.ua_family@.len() == 0
        &&& self.ua_family_code@.len() == 0
        &&& self.ua_family_vendor@.len() == 0
        &&& self.ua_family_vendor_code@.len() == 0
    }

    /// The operating-system fields are all empty.
    pub open spec fn os_fields_empty(&self) -> bool {
        &&& self.os_family@.len() == 0
        &&& self.os_family_code@.len() == 0
        &&& self.os@.len() == 0
        &&& self.os_code@.len() == 0
        &&& self.os_family_vendor@.len() == 0
        &&& self.os_family_vendor_code@.len() == 0
    }

    /// The device fields (class and brand) are all empty.
    pub open spec fn device_fields_empty(&self) -> bool {
        &&& self.device_class@.len() == 0
        &&& self.device_class_code@.len() == 0
        &&& self.device_marketname@.len() == 0
        &&& self.device_brand@.len() == 0
        &&& self.device_brand_code@.len() == 0
    }

    /// `self` and `o` agree on every client-side field.
    pub open spec fn same_client_fields(&self, o: &UaInfo) -> bool {
        &&& self.class_id == o.class_id
        &&& self.client_id == o.client_id
        &&& self.ua_class@ == o.ua_class@
        &&& self.ua_class_code@ == o.ua_class_code@
        &&& self.ua@ == o.ua@
        &&& self.ua_engine@ == o.ua_engine@
        &&& self.ua_version@ == o.ua_version@
        &&& self.ua_version_major@ == o.ua_version_major@
        &&& self.ua_version_minor@ == o.ua_version_minor@
        &&& self.crawler_last_seen@ == o.crawler_last_seen@
        &&& self.crawler_respect_robotstxt@ == o.crawler_respect_robotstxt@
        &&& self.crawler_category@ == o.crawler_category@
        &&& self.crawler_category_code@ == o.crawler_category_code@
        &&& self.ua_uptodate_current_version@ == o.ua_uptodate_current_version@
        &&& self.ua_family@ == o.ua_family@
        &&& self.ua_family_code@ == o.ua_family_code@
        &&& self.ua_family_vendor@ == o.ua_family_vendor@
        &&& self.ua_family_vendor_code@ == o.ua_family_vendor_code@
    }

    /// `self` and `o` agree on every operating-system field.
    pub open spec fn same_os_fields(&self, o: &UaInfo) -> bool {
        &&& self.os_family@ == o.os_family@
        &&& self.os_family_code@ == o.os_family_code@
        &&& self.os@ == o.os@
        &&& self.os_code@ == o.os_code@
        &&& self.os_family_vendor@ == o.os_family_vendor@
        &&& self.os_family_vendor_code@ == o.os_family_vendor_code@
    }

    /// `self` and `o` agree on the device-class fields.
    pub open spec fn same_device_class_fields(&self, o: &UaInfo) -> bool {
        &&& self.device_class@ == o.device_class@
        &&& self.device_class_code@ == o.device_class_code@
    }

    /// `self` and `o` agree on the device-brand fields.
    pub open spec fn same_brand_fields(&self, o: &UaInfo) -> bool {
        &&& self.device_marketname@ == o.device_marketname@
        &&& self.device_brand@ == o.device_brand@
        &&& self.device_brand_code@ == o.device_brand_code@
    }

    /// A fresh record: every field at its default except `ua_string`.
    pub open spec fn is_fresh_for(&self, ua: Seq<char>) -> bool {
        &&& self.client_fields_empty()
        &&& self.os_fields_empty()
        &&& self.device_fields_empty()
        &&& self.ua_string@ == ua
    }

    /// Creates the record that parsing of `ua` starts from.
    pub fn new(ua: &str) -> (r: UaInfo)
        ensures
            r.is_fresh_for(ua@),
    {
        UaInfo {
            class_id: None,
            client_id: None,
            ua_class: String::new(),
            ua_class_code: String::new(),
            ua: String::new(),
            ua_engine: String::new(),
            ua_version: String::new(),
            ua_version_major: String::new(),
            ua_version_minor: String::new(),
            crawler_last_seen: String::new(),
            crawler_respect_robotstxt: String::new(),
            crawler_category: String::new(),
            crawler_category_code: String::new(),
            ua_uptodate_current_version: String::new(),
            ua_family: String::new(),
            ua_family_code: String::new(),
            ua_family_vendor: String::new(),
            ua_family_vendor_code: String::new(),
            ua_string: ua.to_owned(),
            os_family: String::new(),
            os_family_code: String::new(),
            os: String::new(),
            os_code: String::new(),
            os_family_vendor: String::new(),
            os_family_vendor_code: String::new(),
            device_class: String::new(),
            device_class_code: String::new(),
            device_marketname: String::new(),
            device_brand: String::new(),
            device_brand_code: String::new(),
        }
    }
}

impl Default for UaInfo {
    fn default() -> (r: UaInfo)
        ensures
            r.is_fresh_for(Seq::empty()),
    {
        let empty = "";
        proof {
            reveal_strlit("");
            assert(empty@ =~= Seq::<char>::empty());
        }
        UaInfo::new(empty)
    }
}

} // verus!
