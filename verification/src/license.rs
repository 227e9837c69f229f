//! License keys: their format, the licenses that are granted without a
//! server, and what an activation leaves behind.

use sha2::Digest;
use crate::json::{
    flag_member, is_document, json_flag_member, json_is_document, json_text_member, text_member,
};
use crate::text::{begins_with, matches_at, text_eq, to_chars};
use vstd::prelude::*;

verus! {

/// Who a license was sold to.
#[derive(Debug)]
pub struct CustomerInfo {
    pub name: String,
    pub email: String,
}

/// What a [`CustomerInfo`] is, as mathematics.
pub struct CustomerInfoView {
    pub name: Seq<char>,
    pub email: Seq<char>,
}

impl View for CustomerInfo {
    type V = CustomerInfoView;

    open spec fn view(&self) -> CustomerInfoView {
        CustomerInfoView { name: self.name@, email: self.email@ }
    }
}

impl Clone for CustomerInfo {
    fn clone(&self) -> (r: Self)
        ensures
            r@ == self@,
    {
        CustomerInfo { name: self.name.clone(), email: self.email.clone() }
    }
}

/// An activated license as it is kept on this machine.
#[derive(Debug)]
pub struct LicenseData {
    pub key: String,
    pub machine_id: String,
    pub activated_at: String,
    pub customer_info: Option<CustomerInfo>,
    pub expires_at: Option<String>,
    pub features: Vec<String>,
}

/// What is sent to the license server to activate a key.
#[derive(Debug)]
pub struct ActivationRequest {
    pub license_key: String,
    pub machine_id: String,
    pub app_version: String,
}

/// What the license server answers.
#[derive(Debug)]
pub struct ActivationResponse {
    pub success: bool,
    pub message: String,
    pub expires_at: Option<String>,
    pub features: Option<Vec<String>>,
    pub customer_info: Option<CustomerInfo>,
}

/// A character that a license key is made of: a capital letter or a digit.
pub open spec fn is_key_char(c: char) -> bool {
    ('A' <= c && c <= 'Z') || ('0' <= c && c <= '9')
}

/// The `n` characters of `s` from index `from` on are key characters.
pub open spec fn key_chars_at(s: Seq<char>, from: int, n: int) -> bool {
    forall|i: int| from <= i < from + n ==> is_key_char(#[trigger] s[i])
}

/// `WC-2025-XXXXX-XXXX`.
pub open spec fn is_standard_key(s: Seq<char>) -> bool {
    &&& s.len() == 18
    &&& begins_with(s, "WC-2025-"@)
    &&& key_chars_at(s, 8, 5)
    &&& s[13] == '-'
    &&& key_chars_at(s, 14, 4)
}

/// `DEMO-XXXX-XXXX-XXXX`.
pub open spec fn is_demo_key(s: Seq<char>) -> bool {
    &&& s.len() == 19
    &&& begins_with(s, "DEMO-"@)
    &&& key_chars_at(s, 5, 4)
    &&& s[9] == '-'
    &&& key_chars_at(s, 10, 4)
    &&& s[14] == '-'
    &&& key_chars_at(s, 15, 4)
}

/// `PRO-XXXX-XXXX-XXXX`.
pub open spec fn is_pro_key(s: Seq<char>) -> bool {
    &&& s.len() == 18
    &&& begins_with(s, "PRO-"@)
    &&& key_chars_at(s, 4, 4)
    &&& s[8] == '-'
    &&& key_chars_at(s, 9, 4)
    &&& s[13] == '-'
    &&& key_chars_at(s, 14, 4)
}

/// The text has the shape of a license key, in one of its three forms.
pub open spec fn is_license_format(s: Seq<char>) -> bool {
    is_standard_key(s) || is_demo_key(s) || is_pro_key(s)
}

/// Whether the `n` characters of `s` from index `from` on are key
/// characters.
fn key_chars(s: &Vec<char>, from: usize, n: usize) -> (r: bool)
    requires
        from + n <= s@.len(),
    ensures
        r == key_chars_at(s@, from as int, n as int),
{
    let total: usize = s.len();
    assert(from + n <= total);
    let end: usize = from + n;
    let mut i: usize = from;
    while i < end
        invariant
            end == from + n,
            from <= i <= from + n <= s@.len(),
            forall|j: int| from <= j < i ==> is_key_char(#[trigger] s@[j]),
        decreases end - i,
    {
        let c = s[i];
        if !(('A' <= c && c <= 'Z') || ('0' <= c && c <= '9')) {
            return false;
        }
        i += 1;
    }
    true
}

/// Whether the text has the shape of a license key: `WC-2025-XXXXX-XXXX`,
/// `DEMO-XXXX-XXXX-XXXX` or `PRO-XXXX-XXXX-XXXX`, each `X` a capital
/// letter or a digit.
pub fn validate_license_format(key: &str) -> (r: bool)
    ensures
        r == is_license_format(key@),
{
    let s = to_chars(key);
    if s.len() == 18 && matches_at(&s, &to_chars("WC-2025-"), 0) && key_chars(&s, 8, 5) && s[13]
        == '-' && key_chars(&s, 14, 4) {
        return true;
    }
    if s.len() == 19 && matches_at(&s, &to_chars("DEMO-"), 0) && key_chars(&s, 5, 4) && s[9]
        == '-' && key_chars(&s, 10, 4) && s[14] == '-' && key_chars(&s, 15, 4) {
        return true;
    }
    s.len() == 18 && matches_at(&s, &to_chars("PRO-"), 0) && key_chars(&s, 4, 4) && s[8] == '-'
        && key_chars(&s, 9, 4) && s[13] == '-' && key_chars(&s, 14, 4)
}

/// A license that is granted without asking a server.
#[derive(Debug, Clone, Copy, PartialEq, Eq, Structural)]
pub enum OfflineLicense {
    /// The demo license: thirty days, basic and premium features.
    Demo,
    /// The pro license: a year, all features.
    Pro,
}

impl OfflineLicense {
    /// The offline license that a key stands for, if it stands for one.
    pub open spec fn spec_for_key(key: Seq<char>) -> Option<OfflineLicense> {
        if key == "DEMO-1234-5678-9ABC"@ {
            Some(OfflineLicense::Demo)
        } else if key == "PRO-2024-ARTY-WOOF"@ {
            Some(OfflineLicense::Pro)
        } else {
            None
        }
    }

    /// For how many days the license is valid.
    pub open spec fn spec_valid_days(self) -> int {
        match self {
            OfflineLicense::Demo => 30,
            OfflineLicense::Pro => 365,
        }
    }

    /// The offline license that a key stands for, if it stands for one.
    pub fn for_key(key: &str) -> (r: Option<OfflineLicense>)
        ensures
            r == OfflineLicense::spec_for_key(key@),
    {
        if text_eq(key, "DEMO-1234-5678-9ABC") {
            Some(OfflineLicense::Demo)
        } else if text_eq(key, "PRO-2024-ARTY-WOOF") {
            Some(OfflineLicense::Pro)
        } else {
            None
        }
    }

    /// For how many days the license is valid.
    pub fn valid_days(self) -> (r: i64)
        ensures
            r == self.spec_valid_days(),
    {
        match self {
            OfflineLicense::Demo => 30,
            OfflineLicense::Pro => 365,
        }
    }

    /// The answer that stands in for the server's: success, the message,
    /// features and customer of the license, and the given expiry.
    pub fn response(self, expires_at: String) -> (r: ActivationResponse)
        ensures
            r.success,
            r.expires_at is Some && r.expires_at->0@ == expires_at@,
            r.features is Some,
            r.customer_info is Some,
            match self {
                OfflineLicense::Demo => {
                    &&& r.message@ == "Demo license activated"@
                    &&& r.features->0@.len() == 2
                    &&& r.features->0@[0]@ == "basic"@
                    &&& r.features->0@[1]@ == "premium"@
                    &&& r.customer_info->0@ == (CustomerInfoView {
                        name: "Demo User"@,
                        email: "demo@example.com"@,
                    })
                },
                OfflineLicense::Pro => {
                    &&& r.message@ == "Pro license activated"@
                    &&& r.features->0@.len() == 3
                    &&& r.features->0@[0]@ == "basic"@
                    &&& r.features->0@[1]@ == "premium"@
                    &&& r.features->0@[2]@ == "enterprise"@
                    &&& r.customer_info->0@ == (CustomerInfoView {
                        name: "ArtYWoof"@,
                        email: "artywoof@example.com"@,
                    })
                },
            },
    {
        let mut features: Vec<String> = Vec::new();
        features.push("basic".to_owned());
        features.push("premium".to_owned());
        match self {
            OfflineLicense::Demo => ActivationResponse {
                success: true,
                message: "Demo license activated".to_owned(),
                expires_at: Some(expires_at),
                features: Some(features),
                customer_info: Some(
                    CustomerInfo {
                        name: "Demo User".to_owned(),
                        email: "demo@example.com".to_owned(),
                    },
                ),
            },
            OfflineLicense::Pro => {
                features.push("enterprise".to_owned());
                ActivationResponse {
                    success: true,
                    message: "Pro license activated".to_owned(),
                    expires_at: Some(expires_at),
                    features: Some(features),
                    customer_info: Some(
                        CustomerInfo {
                            name: "ArtYWoof".to_owned(),
                            email: "artywoof@example.com".to_owned(),
                        },
                    ),
                }
            },
        }
    }
}

/// The SHA-256 digest of a run of bytes, as `sha2::Sha256::digest`
/// computes it.
pub uninterp spec fn sha256(data: Seq<u8>) -> Seq<u8>;

/// Calls `sha2::Sha256::digest` and copies the digest out. A SHA-256
/// digest is 32 bytes long.
#[verifier::external_body]
fn sha256_digest(data: &[u8]) -> (r: Vec<u8>)
    ensures
        r@ == sha256(data@),
        r@.len() == 32,
{
    sha2::Sha256::digest(data).to_vec()
}

/// The character that stands for a hexadecimal digit, in lower case.
pub open spec fn lower_hex_char(d: nat) -> char {
    if d < 10 {
        crate::text::digit_char(d)
    } else if d == 10 {
        'a'
    } else if d == 11 {
        'b'
    } else if d == 12 {
        'c'
    } else if d == 13 {
        'd'
    } else if d == 14 {
        'e'
    } else {
        'f'
    }
}

/// The bytes written in hexadecimal, two lower-case digits each.
pub open spec fn hex_lower(bytes: Seq<u8>) -> Seq<char>
    decreases bytes.len(),
{
    if bytes.len() == 0 {
        Seq::empty()
    } else {
        hex_lower(bytes.drop_last()).push(lower_hex_char((bytes.last() / 16) as nat)).push(
            lower_hex_char((bytes.last() % 16) as nat),
        )
    }
}

/// Hexadecimal takes two characters for each byte.
pub proof fn lemma_hex_lower_len(bytes: Seq<u8>)
    ensures
        hex_lower(bytes).len() == 2 * bytes.len(),
    decreases bytes.len(),
{
    if bytes.len() > 0 {
        lemma_hex_lower_len(bytes.drop_last());
    }
}

/// Calls `hex::encode`, which writes each byte as two hexadecimal digits
/// in lower case.
#[verifier::external_body]
fn hex_encode(data: &Vec<u8>) -> (r: String)
    ensures
        r@ == hex_lower(data@),
{
    hex::encode(data)
}

/// The SHA-256 digest of a text, in hexadecimal.
pub open spec fn digest_text(text: Seq<char>) -> Seq<char> {
    hex_lower(sha256(vstd::utf8::encode_utf8(text)))
}

/// The SHA-256 digest of a text, in hexadecimal: 64 characters.
pub fn sha256_hex(text: &str) -> (r: String)
    ensures
        r@ == digest_text(text@),
        r@.len() == 64,
{
    let digest = sha256_digest(text.as_bytes());
    proof {
        lemma_hex_lower_len(digest@);
    }
    hex_encode(&digest)
}

/// The bytes written in hexadecimal, two upper-case digits each.
pub open spec fn hex_upper(bytes: Seq<u8>) -> Seq<char>
    decreases bytes.len(),
{
    if bytes.len() == 0 {
        Seq::empty()
    } else {
        hex_upper(bytes.drop_last()).push(
            crate::promptpay::hex_char((bytes.last() / 16) as nat),
        ).push(crate::promptpay::hex_char((bytes.last() % 16) as nat))
    }
}

/// The id of this machine as the license server knows it: the first
/// eight bytes of the digest of the machine's own id behind the prefix
/// `WinCount-ArtYWoof-`, as sixteen hexadecimal digits in upper case.
pub open spec fn machine_id_of(raw_id: Seq<char>) -> Seq<char> {
    hex_upper(sha256(vstd::utf8::encode_utf8("WinCount-ArtYWoof-"@ + raw_id)).take(8))
}

/// The upper-case hexadecimal digit for a number below sixteen.
fn upper_hex_digit(d: u8) -> (c: char)
    requires
        d < 16,
    ensures
        c == crate::promptpay::hex_char(d as nat),
{
    if d < 10 {
        crate::text::digit(d)
    } else if d == 10 {
        'A'
    } else if d == 11 {
        'B'
    } else if d == 12 {
        'C'
    } else if d == 13 {
        'D'
    } else if d == 14 {
        'E'
    } else {
        'F'
    }
}

/// Makes the id of this machine from what the system gave as the
/// machine's own id, or reports that the system gave none.
pub fn get_machine_id(raw_id: Result<String, String>) -> (r: Result<String, String>)
    ensures
        match raw_id {
            Ok(id) => r is Ok && r->Ok_0@ == machine_id_of(id@),
            Err(e) => r is Err && r->Err_0@ == "Failed to get machine ID: "@ + e@,
        },
{
    match raw_id {
        Ok(id) => {
            let salted = "WinCount-ArtYWoof-".to_owned().concat(id.as_str());
            let digest = sha256_digest(salted.as_str().as_bytes());
            let mut out: Vec<char> = Vec::new();
            let mut i: usize = 0;
            assert(digest@.take(8).take(0) =~= Seq::<u8>::empty());
            while i < 8
                invariant
                    i <= 8,
                    digest@.len() == 32,
                    out@ == hex_upper(digest@.take(8).take(i as int)),
                decreases 8 - i,
            {
                let byte = digest[i];
                proof {
                    let head = digest@.take(8);
                    assert(head.take(i + 1).drop_last() =~= head.take(i as int));
                    assert(head.take(i + 1).last() == byte);
                }
                out.push(upper_hex_digit(byte / 16));
                out.push(upper_hex_digit(byte % 16));
                i += 1;
            }
            assert(digest@.take(8).take(8) =~= digest@.take(8));
            Ok(crate::text::from_chars(&out))
        },
        Err(e) => Err("Failed to get machine ID: ".to_owned().concat(e.as_str())),
    }
}

/// The signature of a heartbeat: the digest of machine id, time and
/// license key with colons between them.
pub open spec fn signature_of(machine_id: Seq<char>, timestamp: int, license_key: Seq<char>) -> Seq<
    char,
> {
    digest_text(
        machine_id + ":"@ + crate::text::signed_decimal(timestamp) + ":"@ + license_key,
    )
}

/// Signs a heartbeat.
pub fn heartbeat_signature(machine_id: &str, timestamp: i64, license_key: &str) -> (r: String)
    ensures
        r@ == signature_of(machine_id@, timestamp as int, license_key@),
{
    let mut data = to_chars(machine_id);
    crate::text::append(&mut data, &to_chars(":"));
    crate::text::push_signed_decimal(&mut data, timestamp);
    crate::text::append(&mut data, &to_chars(":"));
    crate::text::append(&mut data, &to_chars(license_key));
    sha256_hex(crate::text::from_chars(&data).as_str())
}

/// What is read off an answer of the license server before it is judged.
#[derive(Debug)]
pub struct ServerAnswer {
    /// The answer came with a success status.
    pub status_ok: bool,
    /// The body is a JSON document.
    pub is_document: bool,
    /// The member `success` of the body, where that is a boolean.
    pub success: Option<bool>,
    /// The member `valid` of the body, where that is a boolean.
    pub valid: Option<bool>,
    /// The member `status` of the body, where that is a text.
    pub status: Option<String>,
    /// The whole body in lower case.
    pub lowered: String,
}

/// What a [`ServerAnswer`] is, as mathematics.
pub struct ServerAnswerView {
    pub status_ok: bool,
    pub is_document: bool,
    pub success: Option<bool>,
    pub valid: Option<bool>,
    pub status: Option<Seq<char>>,
    pub lowered: Seq<char>,
}

impl View for ServerAnswer {
    type V = ServerAnswerView;

    open spec fn view(&self) -> ServerAnswerView {
        ServerAnswerView {
            status_ok: self.status_ok,
            is_document: self.is_document,
            success: self.success,
            valid: self.valid,
            status: match self.status {
                Some(s) => Some(s@),
                None => None,
            },
            lowered: self.lowered@,
        }
    }
}

impl ServerAnswerView {
    /// What an answer with this status and this body reads as.
    pub open spec fn of(status_ok: bool, body: Seq<char>) -> ServerAnswerView {
        ServerAnswerView {
            status_ok,
            is_document: json_is_document(body),
            success: json_flag_member(body, "success"@),
            valid: json_flag_member(body, "valid"@),
            status: json_text_member(body, "status"@),
            lowered: crate::text::lowercase(body),
        }
    }

    /// The verdict of the authorization gate: the key is good only if the
    /// answer came with a success status and holds a `success` that is
    /// true.
    pub open spec fn spec_gate_verdict(self) -> bool {
        self.status_ok && self.success == Some(true)
    }

    /// The verdict on a heartbeat: the license is good only if the answer
    /// came with a success status and holds a `valid` that is true.
    pub open spec fn spec_heartbeat_verdict(self) -> bool {
        self.status_ok && self.valid == Some(true)
    }

    /// The verdict on a key that is being entered. With a success status
    /// and a JSON body, the first of these decides: `success`, `valid`, a
    /// `status` that is `valid` or `success`, and at last whether the
    /// body, in lower case, holds `valid`, `success` or `true` anywhere.
    /// Anything else is a no.
    pub open spec fn spec_entry_verdict(self) -> bool {
        if !self.status_ok || !self.is_document {
            false
        } else if self.success is Some {
            self.success->0
        } else if self.valid is Some {
            self.valid->0
        } else if self.status is Some {
            self.status->0 == "valid"@ || self.status->0 == "success"@
        } else {
            crate::text::contains_text(self.lowered, "valid"@) || crate::text::contains_text(
                self.lowered,
                "success"@,
            ) || crate::text::contains_text(self.lowered, "true"@)
        }
    }
}

impl ServerAnswer {
    /// Reads an answer of the license server: its status, and what its
    /// body holds of the members that count.
    pub fn read(status_ok: bool, body: &str) -> (r: ServerAnswer)
        ensures
            r@ == ServerAnswerView::of(status_ok, body@),
    {
        ServerAnswer {
            status_ok,
            is_document: is_document(body),
            success: flag_member(body, "success"),
            valid: flag_member(body, "valid"),
            status: text_member(body, "status"),
            lowered: crate::text::to_lower(body),
        }
    }

    /// The verdict of the authorization gate.
    pub fn gate_verdict(&self) -> (r: bool)
        ensures
            r == self@.spec_gate_verdict(),
    {
        self.status_ok && match self.success {
            Some(success) => success,
            None => false,
        }
    }

    /// The verdict on a heartbeat.
    pub fn heartbeat_verdict(&self) -> (r: bool)
        ensures
            r == self@.spec_heartbeat_verdict(),
    {
        self.status_ok && match self.valid {
            Some(valid) => valid,
            None => false,
        }
    }

    /// The verdict on a key that is being entered.
    pub fn entry_verdict(&self) -> (r: bool)
        ensures
            r == self@.spec_entry_verdict(),
    {
        if !self.status_ok || !self.is_document {
            return false;
        }
        match self.success {
            Some(success) => {
                return success;
            },
            None => {},
        }
        match self.valid {
            Some(valid) => {
                return valid;
            },
            None => {},
        }
        match &self.status {
            Some(status) => {
                return text_eq(status.as_str(), "valid") || text_eq(status.as_str(), "success");
            },
            None => {},
        }
        let lowered = to_chars(self.lowered.as_str());
        crate::text::contains(&lowered, &to_chars("valid")) || crate::text::contains(
            &lowered,
            &to_chars("success"),
        ) || crate::text::contains(&lowered, &to_chars("true"))
    }
}

/// Reads the answer of the license server the way the authorization gate
/// does.
pub fn license_gate_verdict(status_ok: bool, body: &str) -> (r: bool)
    ensures
        r == ServerAnswerView::of(status_ok, body@).spec_gate_verdict(),
{
    ServerAnswer::read(status_ok, body).gate_verdict()
}

/// Reads the answer of the license server to a heartbeat.
pub fn license_heartbeat_verdict(status_ok: bool, body: &str) -> (r: bool)
    ensures
        r == ServerAnswerView::of(status_ok, body@).spec_heartbeat_verdict(),
{
    ServerAnswer::read(status_ok, body).heartbeat_verdict()
}

/// Reads the answer of the license server to a key that is being entered.
pub fn license_entry_verdict(status_ok: bool, body: &str) -> (r: bool)
    ensures
        r == ServerAnswerView::of(status_ok, body@).spec_entry_verdict(),
{
    ServerAnswer::read(status_ok, body).entry_verdict()
}

/// The instant that an RFC 3339 text stands for, as
/// `chrono::DateTime::parse_from_rfc3339` reads it: the seconds since the
/// epoch and the nanoseconds within the second, or the parser's complaint.
pub uninterp spec fn rfc3339_instant(text: Seq<char>) -> Result<(i64, u32), Seq<char>>;

/// Parses a date and time with `chrono::DateTime::parse_from_rfc3339` and
/// reads the instant off with `timestamp` and `timestamp_subsec_nanos`; a
/// text that the parser refuses yields the parser's complaint.
#[verifier::external_body]
fn parse_rfc3339(text: &str) -> (r: Result<(i64, u32), String>)
    ensures
        match r {
            Ok(instant) => rfc3339_instant(text@) == Ok::<(i64, u32), Seq<char>>(instant),
            Err(complaint) => rfc3339_instant(text@) == Err::<(i64, u32), Seq<char>>(complaint@),
        },
{
    match chrono::DateTime::parse_from_rfc3339(text) {
        Ok(instant) => Ok((instant.timestamp(), instant.timestamp_subsec_nanos())),
        Err(complaint) => Err(complaint.to_string()),
    }
}

/// The instant `a` lies after the instant `b`.
pub open spec fn is_after(a: (i64, u32), b: (i64, u32)) -> bool {
    a.0 > b.0 || (a.0 == b.0 && a.1 > b.1)
}

/// What is found of a license whose expiry reads as `end` when it is
/// looked at at the instant `now`: nothing to object to, or why it cannot
/// be used. A license without an expiry never expires.
pub open spec fn expiry_finding(end: Option<Result<(i64, u32), Seq<char>>>, now: (i64, u32)) -> Result<
    (),
    Seq<char>,
> {
    match end {
        None => Ok(()),
        Some(Err(complaint)) => Err("Invalid expiration date: "@ + complaint),
        Some(Ok(end)) => if is_after(now, end) {
            Err("License has expired"@)
        } else {
            Ok(())
        },
    }
}

/// How the expiry of a license reads.
pub open spec fn expiry_of(expires_at: Option<String>) -> Option<Result<(i64, u32), Seq<char>>> {
    match expires_at {
        None => None,
        Some(text) => Some(rfc3339_instant(text@)),
    }
}

/// Judges an expiry that has been read: `end` is the instant at which
/// the license ends, or the complaint of the parser that could not read
/// it, or nothing for a license that does not expire.
pub fn judge_expiry(end: Option<Result<(i64, u32), String>>, now_secs: i64, now_nanos: u32) -> (r:
    Result<(), String>)
    ensures
        match expiry_finding(
            match end {
                None => None,
                Some(Ok(instant)) => Some(Ok(instant)),
                Some(Err(complaint)) => Some(Err(complaint@)),
            },
            (now_secs, now_nanos),
        ) {
            Ok(()) => r is Ok,
            Err(why) => r is Err && r->Err_0@ == why,
        },
{
    match end {
        None => Ok(()),
        Some(Err(complaint)) => Err(
            "Invalid expiration date: ".to_owned().concat(complaint.as_str()),
        ),
        Some(Ok(instant)) => {
            if now_secs > instant.0 || (now_secs == instant.0 && now_nanos > instant.1) {
                Err("License has expired".to_owned())
            } else {
                Ok(())
            }
        },
    }
}

/// Looks at the expiry of a license at the instant given by `now_secs`
/// and `now_nanos`.
pub fn check_license_expiry(license: &LicenseData, now_secs: i64, now_nanos: u32) -> (r: Result<
    (),
    String,
>)
    ensures
        match expiry_finding(expiry_of(license.expires_at), (now_secs, now_nanos)) {
            Ok(()) => r is Ok,
            Err(why) => r is Err && r->Err_0@ == why,
        },
{
    let end = match &license.expires_at {
        None => None,
        Some(text) => Some(parse_rfc3339(text.as_str())),
    };
    judge_expiry(end, now_secs, now_nanos)
}

/// Decides the status of a license: an expired or unreadable expiry is an
/// error; else the license server decides where it answered, and a license
/// that could not be checked with the server counts as good.
pub fn check_license_status(
    license: &LicenseData,
    now_secs: i64,
    now_nanos: u32,
    online_success: Option<bool>,
) -> (r: Result<bool, String>)
    ensures
        match expiry_finding(expiry_of(license.expires_at), (now_secs, now_nanos)) {
            Ok(()) => r == Ok::<bool, String>(
                match online_success {
                    Some(success) => success,
                    None => true,
                },
            ),
            Err(why) => r is Err && r->Err_0@ == why,
        },
{
    match check_license_expiry(license, now_secs, now_nanos) {
        Err(why) => Err(why),
        Ok(()) => match online_success {
            Some(success) => Ok(success),
            None => Ok(true),
        },
    }
}

/// Whether a stored license is the activation of this key on this machine.
pub fn is_same_activation(existing: &LicenseData, license_key: &str, machine_id: &str) -> (r: bool)
    ensures
        r == (existing.key@ == license_key@ && existing.machine_id@ == machine_id@),
{
    text_eq(existing.key.as_str(), license_key) && text_eq(existing.machine_id.as_str(), machine_id)
}

/// Makes the license that an activation leaves behind. An answer that
/// reports no success yields its message as the error; one that names no
/// features yields a license without any.
pub fn license_from_response(
    license_key: &str,
    machine_id: String,
    activated_at: String,
    response: ActivationResponse,
) -> (r: Result<LicenseData, String>)
    ensures
        match r {
            Ok(license) => {
                &&& response.success
                &&& license.key@ == license_key@
                &&& license.machine_id@ == machine_id@
                &&& license.activated_at@ == activated_at@
                &&& license.customer_info == response.customer_info
                &&& license.expires_at == response.expires_at
                &&& match response.features {
                    Some(f) => license.features == f,
                    None => license.features@.len() == 0,
                }
            },
            Err(message) => !response.success && message == response.message,
        },
{
    if !response.success {
        return Err(response.message);
    }
    let features = match response.features {
        Some(f) => f,
        None => Vec::new(),
    };
    Ok(
        LicenseData {
            key: license_key.to_owned(),
            machine_id,
            activated_at,
            customer_info: response.customer_info,
            expires_at: response.expires_at,
            features,
        },
    )
}

} // verus!
