//! PromptPay payment requests: the payload of the QR code, its checksum,
//! and the life of a payment reference.

use crate::text::{
    append, begins_with, decimal, digit_char, from_chars, pad_zeros, push_signed_decimal, replace,
    replaced, signed_decimal, slice, starts_with, to_chars, to_decimal, zero_padded,
};
use base64::Engine;
use rand::Rng;
use vstd::prelude::*;
use vstd::string::StringSliceAdditionalSpecFns;
use vstd::utf8::encode_utf8;

verus! {

/// One round of the checksum: the register moves up by one bit and takes
/// the polynomial `0x1021` if a bit fell out at the top.
pub open spec fn crc_round(crc: u16) -> u16 {
    if crc & 0x8000 != 0 {
        (crc << 1) ^ 0x1021
    } else {
        crc << 1
    }
}

/// `n` rounds of the checksum.
pub open spec fn crc_rounds(crc: u16, n: nat) -> u16
    decreases n,
{
    if n == 0 {
        crc
    } else {
        crc_round(crc_rounds(crc, (n - 1) as nat))
    }
}

/// The register after one more byte: the byte goes into the upper half,
/// then eight rounds.
pub open spec fn crc_byte(crc: u16, byte: u8) -> u16 {
    crc_rounds(crc ^ ((byte as u16) << 8), 8)
}

/// The CRC-16/CCITT-FALSE checksum of `bytes`: polynomial `0x1021`, start
/// value `0xFFFF`, bytes taken first to last.
pub open spec fn crc_of(bytes: Seq<u8>) -> u16
    decreases bytes.len(),
{
    if bytes.len() == 0 {
        0xFFFF
    } else {
        crc_byte(crc_of(bytes.drop_last()), bytes.last())
    }
}

/// The CRC-16/CCITT-FALSE checksum of the bytes of `data`.
pub fn calculate_crc16_ccitt(data: &str) -> (crc: u16)
    ensures
        crc == crc_of(data.spec_bytes()),
{
    let bytes = data.as_bytes();
    let mut crc: u16 = 0xFFFF;
    let mut i: usize = 0;
    assert(bytes@.take(0) =~= Seq::<u8>::empty());
    while i < bytes.len()
        invariant
            i <= bytes@.len(),
            crc == crc_of(bytes@.take(i as int)),
        decreases bytes@.len() - i,
    {
        let ghost before = crc;
        crc = crc ^ ((bytes[i] as u16) << 8);
        let ghost mixed = crc;
        let mut round: usize = 0;
        while round < 8
            invariant
                round <= 8,
                crc == crc_rounds(mixed, round as nat),
            decreases 8 - round,
        {
            if (crc & 0x8000) != 0 {
                crc = (crc << 1) ^ 0x1021;
            } else {
                crc = crc << 1;
            }
            round += 1;
        }
        proof {
            assert(bytes@.take(i + 1).drop_last() =~= bytes@.take(i as int));
            assert(bytes@.take(i + 1).last() == bytes@[i as int]);
        }
        i += 1;
    }
    assert(bytes@.take(bytes@.len() as int) =~= bytes@);
    crc
}

/// The character that stands for a hexadecimal digit, in upper case.
pub open spec fn hex_char(d: nat) -> char {
    if d < 10 {
        digit_char(d)
    } else if d == 10 {
        'A'
    } else if d == 11 {
        'B'
    } else if d == 12 {
        'C'
    } else if d == 13 {
        'D'
    } else if d == 14 {
        'E'
    } else {
        'F'
    }
}

/// `v` as four hexadecimal digits in upper case.
pub open spec fn hex4(v: u16) -> Seq<char> {
    seq![
        hex_char(((v >> 12) & 0xF) as nat),
        hex_char(((v >> 8) & 0xF) as nat),
        hex_char(((v >> 4) & 0xF) as nat),
        hex_char((v & 0xF) as nat),
    ]
}

/// The character that stands for a hexadecimal digit, in upper case.
fn hex_digit(d: u16) -> (c: char)
    requires
        d < 16,
    ensures
        c == hex_char(d as nat),
{
    if d < 10 {
        crate::text::digit(d as u8)
    } else if d == 10 {
        'A'
    } else if d == 11 {
        'B'
    } else if d == 12 {
        'C'
    } else if d == 13 {
        'D'
    } else if d == 14 {
        'E'
    } else {
        'F'
    }
}

/// `v` as four hexadecimal digits in upper case.
fn to_hex4(v: u16) -> (r: Vec<char>)
    ensures
        r@ == hex4(v),
{
    let a = (v >> 12) & 0xF;
    let b = (v >> 8) & 0xF;
    let c = (v >> 4) & 0xF;
    let d = v & 0xF;
    assert(a < 16 && b < 16 && c < 16 && d < 16) by (bit_vector)
        requires
            a == (v >> 12) & 0xF,
            b == (v >> 8) & 0xF,
            c == (v >> 4) & 0xF,
            d == v & 0xF,
    ;
    let mut out: Vec<char> = Vec::new();
    out.push(hex_digit(a));
    out.push(hex_digit(b));
    out.push(hex_digit(c));
    out.push(hex_digit(d));
    assert(out@ =~= hex4(v));
    out
}

/// How many bytes `s` takes.
pub open spec fn byte_len(s: Seq<char>) -> nat {
    encode_utf8(s).len()
}

/// A field of the payload: the tag, the length of the value in bytes as
/// two decimal digits, and the value.
pub open spec fn field(tag: Seq<char>, value: Seq<char>) -> Seq<char> {
    tag + zero_padded(decimal(byte_len(value)), 2) + value
}

/// The phone number as the payload carries it: the national number behind
/// the country code `66`. `None` for a number that is neither ten bytes
/// beginning with `0` nor nine bytes.
pub open spec fn formatted_phone(phone: Seq<char>) -> Option<Seq<char>> {
    if begins_with(phone, "0"@) && byte_len(phone) == 10 {
        Some("66"@ + phone.skip(1))
    } else if byte_len(phone) == 9 {
        Some("66"@ + phone)
    } else {
        None
    }
}

/// The payload before the checksum: format indicator, static QR, the
/// PromptPay account of the phone, the reference, the currency, the amount
/// where there is one, country, merchant and city.
pub open spec fn payload_body(phone: Seq<char>, amount: Option<Seq<char>>, reference: Seq<char>) -> Seq<
    char,
> {
    let account = "0016A000000677010111"@ + zero_padded(phone, 13);
    let padded_reference = zero_padded(reference, 12);
    "000201"@ + "010211"@ + field("29"@, account) + field("62"@, field("01"@, padded_reference))
        + "5303764"@ + (match amount {
        Some(a) => field("54"@, a),
        None => Seq::empty(),
    }) + "5802TH"@ + field("59"@, "Win Count App"@) + field("60"@, "Bangkok"@)
}

/// The whole payload: the body, the tag of the checksum, and the checksum
/// of the body with the tag and length `6304` behind it.
pub open spec fn payload(phone: Seq<char>, amount: Option<Seq<char>>, reference: Seq<char>) -> Seq<
    char,
> {
    let body = payload_body(phone, amount, reference);
    body + "63"@ + hex4(crc_of(encode_utf8(body + "6304"@)))
}

/// How many bytes the text takes, as a decimal of at least two digits.
fn length_digits(value: &Vec<char>) -> (r: Vec<char>)
    ensures
        r@ == zero_padded(decimal(byte_len(value@)), 2),
{
    let text = from_chars(value);
    let n = text.as_str().as_bytes().len();
    pad_zeros(&to_decimal(n as u64), 2)
}

/// Appends a field to the payload.
fn push_field(out: &mut Vec<char>, tag: &str, value: &Vec<char>)
    ensures
        final(out)@ == old(out)@ + field(tag@, value@),
{
    let ghost before = out@;
    append(out, &to_chars(tag));
    append(out, &length_digits(value));
    append(out, value);
    assert(out@ =~= before + field(tag@, value@));
}

/// A field as a text of its own.
fn make_field(tag: &str, value: &Vec<char>) -> (r: Vec<char>)
    ensures
        r@ == field(tag@, value@),
{
    let mut out: Vec<char> = Vec::new();
    push_field(&mut out, tag, value);
    assert(Seq::<char>::empty() + field(tag@, value@) =~= field(tag@, value@));
    out
}

/// The phone number behind the country code, if it has one of the two
/// accepted shapes.
fn format_phone(phone: &str) -> (r: Option<Vec<char>>)
    ensures
        match r {
            Some(p) => formatted_phone(phone@) == Some(p@),
            None => formatted_phone(phone@) is None,
        },
{
    let chars = to_chars(phone);
    let bytes = phone.as_bytes().len();
    if starts_with(&chars, &to_chars("0")) && bytes == 10 {
        let mut out = to_chars("66");
        proof {
            reveal_strlit("0");
            assert(chars@.len() >= 1);
        }
        append(&mut out, &slice(&chars, 1, chars.len()));
        assert(chars@.subrange(1, chars@.len() as int) =~= chars@.skip(1));
        Some(out)
    } else if bytes == 9 {
        let mut out = to_chars("66");
        append(&mut out, &chars);
        Some(out)
    } else {
        None
    }
}

/// Builds the payload of the QR code for a payment to `phone`. `amount`
/// is the amount as it is to be printed, with two decimals, or `None` for
/// a code that leaves the amount open. A phone number that is neither ten
/// bytes beginning with `0` nor nine bytes is refused.
pub fn create_thai_promptpay_qr(phone: &str, amount: Option<&str>, payment_ref: &str) -> (r:
    Result<String, String>)
    ensures
        match formatted_phone(phone@) {
            Some(p) => r is Ok && r->Ok_0@ == payload(
                p,
                match amount {
                    Some(a) => Some(a@),
                    None => None,
                },
                payment_ref@,
            ),
            None => r is Err && r->Err_0@ == "Invalid phone number format"@,
        },
{
    let number = match format_phone(phone) {
        Some(p) => p,
        None => {
            return Err("Invalid phone number format".to_owned());
        },
    };
    let mut data = to_chars("000201");
    append(&mut data, &to_chars("010211"));
    let mut account = to_chars("0016A000000677010111");
    append(&mut account, &pad_zeros(&number, 13));
    push_field(&mut data, "29", &account);
    let reference = pad_zeros(&to_chars(payment_ref), 12);
    push_field(&mut data, "62", &make_field("01", &reference));
    append(&mut data, &to_chars("5303764"));
    match amount {
        Some(a) => {
            push_field(&mut data, "54", &to_chars(a));
        },
        None => {
            assert(data@ + Seq::<char>::empty() =~= data@);
        },
    }
    append(&mut data, &to_chars("5802TH"));
    push_field(&mut data, "59", &to_chars("Win Count App"));
    push_field(&mut data, "60", &to_chars("Bangkok"));
    let ghost body = data@;
    assert(body =~= payload_body(
        number@,
        match amount {
            Some(a) => Some(a@),
            None => None,
        },
        payment_ref@,
    ));
    let mut checked = data.clone();
    append(&mut checked, &to_chars("6304"));
    let crc = calculate_crc16_ccitt(from_chars(&checked).as_str());
    append(&mut data, &to_chars("63"));
    append(&mut data, &to_hex4(crc));
    Ok(from_chars(&data))
}

/// The phone number with hyphens and blanks taken out and the country
/// prefix `+66` written as `0`.
pub open spec fn cleaned_phone(phone: Seq<char>) -> Seq<char> {
    replaced(
        replaced(replaced(phone, "-"@, Seq::empty()), " "@, Seq::empty()),
        "+66"@,
        "0"@,
    )
}

/// Takes hyphens and blanks out of a phone number and writes the country
/// prefix `+66` as `0`.
pub fn clean_phone(phone: &str) -> (r: String)
    ensures
        r@ == cleaned_phone(phone@),
{
    let nothing: Vec<char> = Vec::new();
    let a = replace(&to_chars(phone), &to_chars("-"), &nothing);
    let b = replace(&a, &to_chars(" "), &nothing);
    let c = replace(&b, &to_chars("+66"), &to_chars("0"));
    from_chars(&c)
}

/// The reference of a payment: `PP`, the time of its creation in seconds,
/// and a random number of at least four digits.
pub open spec fn reference_of(timestamp: int, random: nat) -> Seq<char> {
    "PP"@ + signed_decimal(timestamp) + zero_padded(decimal(random), 4)
}

/// Makes the reference of a payment that is created at `timestamp`, in
/// seconds, with `random` to tell it from others of the same second.
pub fn payment_reference(timestamp: i64, random: u16) -> (r: String)
    ensures
        r@ == reference_of(timestamp as int, random as nat),
{
    let mut out = to_chars("PP");
    push_signed_decimal(&mut out, timestamp);
    append(&mut out, &pad_zeros(&to_decimal(random as u64), 4));
    from_chars(&out)
}

/// How long a payment stays open, in seconds.
pub const PAYMENT_WINDOW_SECS: i64 = 900;

/// The value of a decimal digit; `None` for any other character.
pub open spec fn digit_value(c: char) -> Option<nat> {
    if c == '0' {
        Some(0)
    } else if c == '1' {
        Some(1)
    } else if c == '2' {
        Some(2)
    } else if c == '3' {
        Some(3)
    } else if c == '4' {
        Some(4)
    } else if c == '5' {
        Some(5)
    } else if c == '6' {
        Some(6)
    } else if c == '7' {
        Some(7)
    } else if c == '8' {
        Some(8)
    } else if c == '9' {
        Some(9)
    } else {
        None
    }
}

/// The number that a run of decimal digits stands for; `None` for the
/// empty run and for a run that holds anything but digits.
pub open spec fn digits_value(s: Seq<char>) -> Option<nat>
    decreases s.len(),
{
    if s.len() == 0 {
        None
    } else if s.len() == 1 {
        digit_value(s[0])
    } else {
        match (digits_value(s.drop_last()), digit_value(s.last())) {
            (Some(high), Some(low)) => Some(high * 10 + low),
            _ => None,
        }
    }
}

/// The number that a text stands for: decimal digits, with `+` or `-`
/// before them if one likes.
pub open spec fn signed_value(s: Seq<char>) -> Option<int> {
    if s.len() > 0 && s[0] == '-' {
        match digits_value(s.skip(1)) {
            Some(v) => Some(-(v as int)),
            None => None,
        }
    } else if s.len() > 0 && s[0] == '+' {
        match digits_value(s.skip(1)) {
            Some(v) => Some(v as int),
            None => None,
        }
    } else {
        match digits_value(s) {
            Some(v) => Some(v as int),
            None => None,
        }
    }
}

/// When the payment with this reference was created, in seconds: the
/// number that the ten characters behind `PP` stand for.
pub open spec fn created_at(reference: Seq<char>) -> Option<int> {
    if begins_with(reference, "PP"@) && reference.len() >= 12 {
        signed_value(reference.subrange(2, 12))
    } else {
        None
    }
}

/// Whether the payment is past its window at the time `now_secs` seconds
/// and `now_nanos` nanoseconds: more than 900 seconds after its creation.
/// A reference that tells no time of creation never expires.
pub open spec fn expired(reference: Seq<char>, now_secs: int, now_nanos: nat) -> bool {
    match created_at(reference) {
        Some(t) => now_secs > t + 900 || (now_secs == t + 900 && now_nanos > 0),
        None => false,
    }
}

/// The value of a decimal digit.
fn value_of_digit(c: char) -> (r: Option<u64>)
    ensures
        match r {
            Some(v) => digit_value(c) == Some(v as nat) && v < 10,
            None => digit_value(c) is None,
        },
{
    if c == '0' {
        Some(0)
    } else if c == '1' {
        Some(1)
    } else if c == '2' {
        Some(2)
    } else if c == '3' {
        Some(3)
    } else if c == '4' {
        Some(4)
    } else if c == '5' {
        Some(5)
    } else if c == '6' {
        Some(6)
    } else if c == '7' {
        Some(7)
    } else if c == '8' {
        Some(8)
    } else if c == '9' {
        Some(9)
    } else {
        None
    }
}

/// A run that holds a character that is no digit stands for no number,
/// however it goes on.
proof fn lemma_digits_value_prefix(s: Seq<char>, k: int)
    requires
        1 <= k <= s.len(),
        digits_value(s.take(k)) is None,
    ensures
        digits_value(s) is None,
    decreases s.len() - k,
{
    if k < s.len() {
        assert(s.take(k + 1).drop_last() =~= s.take(k));
        lemma_digits_value_prefix(s, k + 1);
    } else {
        assert(s.take(k) =~= s);
    }
}

/// Ten to the power of `n`, for `n` up to ten.
spec fn power_of_ten(n: nat) -> nat {
    if n == 0 {
        1
    } else if n == 1 {
        10
    } else if n == 2 {
        100
    } else if n == 3 {
        1_000
    } else if n == 4 {
        10_000
    } else if n == 5 {
        100_000
    } else if n == 6 {
        1_000_000
    } else if n == 7 {
        10_000_000
    } else if n == 8 {
        100_000_000
    } else if n == 9 {
        1_000_000_000
    } else {
        10_000_000_000
    }
}

/// The number that a run of at most ten decimal digits stands for.
fn value_of_digits(s: &Vec<char>) -> (r: Option<u64>)
    requires
        s@.len() <= 10,
    ensures
        match r {
            Some(v) => digits_value(s@) == Some(v as nat) && v < 10_000_000_000,
            None => digits_value(s@) is None,
        },
{
    if s.len() == 0 {
        return None;
    }
    let mut value: u64 = match value_of_digit(s[0]) {
        Some(v) => v,
        None => {
            proof {
                assert(s@.take(1) =~= seq![s@[0]]);
                lemma_digits_value_prefix(s@, 1);
            }
            return None;
        },
    };
    let mut i: usize = 1;
    assert(s@.take(1) =~= seq![s@[0]]);
    while i < s.len()
        invariant
            1 <= i <= s@.len() <= 10,
            digits_value(s@.take(i as int)) == Some(value as nat),
            value < power_of_ten(i as nat),
        decreases s@.len() - i,
    {
        proof {
            assert(s@.take(i + 1).drop_last() =~= s@.take(i as int));
            assert(s@.take(i + 1).last() == s@[i as int]);
        }
        match value_of_digit(s[i]) {
            Some(d) => {
                value = value * 10 + d;
            },
            None => {
                proof {
                    lemma_digits_value_prefix(s@, i + 1);
                }
                return None;
            },
        }
        i += 1;
    }
    proof {
        assert(s@.take(s@.len() as int) =~= s@);
    }
    Some(value)
}

/// When the payment with this reference was created, in seconds.
fn creation_time(reference: &str) -> (r: Option<i64>)
    ensures
        match r {
            Some(t) => created_at(reference@) == Some(t as int) && -10_000_000_000 < t
                < 10_000_000_000,
            None => created_at(reference@) is None,
        },
{
    let chars = to_chars(reference);
    if !starts_with(&chars, &to_chars("PP")) || chars.len() < 12 {
        return None;
    }
    let stamp = slice(&chars, 2, 12);
    if stamp[0] == '-' || stamp[0] == '+' {
        let digits = slice(&stamp, 1, 10);
        assert(stamp@.subrange(1, 10) =~= stamp@.skip(1));
        match value_of_digits(&digits) {
            Some(v) => if stamp[0] == '-' {
                Some(-(v as i64))
            } else {
                Some(v as i64)
            },
            None => None,
        }
    } else {
        match value_of_digits(&stamp) {
            Some(v) => Some(v as i64),
            None => None,
        }
    }
}

/// Whether the payment with this reference is past its window of fifteen
/// minutes at the given time, in seconds and nanoseconds.
pub fn is_payment_expired(payment_ref: &str, now_secs: i64, now_nanos: u32) -> (r: bool)
    ensures
        r == expired(payment_ref@, now_secs as int, now_nanos as nat),
{
    match creation_time(payment_ref) {
        Some(t) => {
            let end = t + PAYMENT_WINDOW_SECS;
            now_secs > end || (now_secs == end && now_nanos > 0)
        },
        None => false,
    }
}

/// Whether the payment was received. No payment is ever confirmed from
/// here: confirmation has to come from outside.
pub fn simulate_payment_check(_payment_ref: &str) -> (r: bool)
    ensures
        !r,
{
    false
}

/// The state of a payment, as the control surface is told it.
#[derive(Debug)]
pub struct PaymentStatus {
    /// `pending`, `completed` or `expired`.
    pub status: String,
    pub payment_ref: String,
    pub license_key: Option<String>,
    pub paid_at: Option<String>,
}

/// What a [`PaymentStatus`] is, as mathematics.
pub struct PaymentStatusView {
    pub status: Seq<char>,
    pub payment_ref: Seq<char>,
    pub license_key: Option<Seq<char>>,
    pub paid_at: Option<Seq<char>>,
}

impl View for PaymentStatus {
    type V = PaymentStatusView;

    open spec fn view(&self) -> PaymentStatusView {
        PaymentStatusView {
            status: self.status@,
            payment_ref: self.payment_ref@,
            license_key: match self.license_key {
                Some(k) => Some(k@),
                None => None,
            },
            paid_at: match self.paid_at {
                Some(t) => Some(t@),
                None => None,
            },
        }
    }
}

/// The state of the payment `payment_ref`: `expired` once its window has
/// passed; else `completed`, with the license key and the time of payment,
/// where the payment was received; else `pending`.
pub open spec fn status_of(
    payment_ref: Seq<char>,
    now_secs: int,
    now_nanos: nat,
    paid: bool,
    license_key: Seq<char>,
    now_text: Seq<char>,
) -> PaymentStatusView {
    if expired(payment_ref, now_secs, now_nanos) {
        PaymentStatusView {
            status: "expired"@,
            payment_ref,
            license_key: None,
            paid_at: None,
        }
    } else if paid {
        PaymentStatusView {
            status: "completed"@,
            payment_ref,
            license_key: Some(license_key),
            paid_at: Some(now_text),
        }
    } else {
        PaymentStatusView {
            status: "pending"@,
            payment_ref,
            license_key: None,
            paid_at: None,
        }
    }
}

/// Decides the state of a payment from what is known of it: the time,
/// whether it was received, and the license key and the time stamp to
/// hand out if it was.
pub fn payment_status(
    payment_ref: String,
    now_secs: i64,
    now_nanos: u32,
    paid: bool,
    license_key: String,
    now_text: String,
) -> (r: PaymentStatus)
    ensures
        r@ == status_of(
            payment_ref@,
            now_secs as int,
            now_nanos as nat,
            paid,
            license_key@,
            now_text@,
        ),
{
    if is_payment_expired(payment_ref.as_str(), now_secs, now_nanos) {
        PaymentStatus {
            status: "expired".to_owned(),
            payment_ref,
            license_key: None,
            paid_at: None,
        }
    } else if paid {
        PaymentStatus {
            status: "completed".to_owned(),
            payment_ref,
            license_key: Some(license_key),
            paid_at: Some(now_text),
        }
    } else {
        PaymentStatus {
            status: "pending".to_owned(),
            payment_ref,
            license_key: None,
            paid_at: None,
        }
    }
}

/// Draws a number below `n` with `Rng::gen_range` on the generator of the
/// thread, from the range `0..n`. Which number it is, is left to chance:
/// all that is claimed is that it lies in the range.
#[verifier::external_body]
fn random_below(n: usize) -> (r: usize)
    requires
        n > 0,
    ensures
        r < n,
{
    rand::thread_rng().gen_range(0..n)
}

/// Draws a 16-bit number with `rand::random`. Nothing is claimed of it.
#[verifier::external_body]
fn random_u16() -> (r: u16) {
    rand::random::<u16>()
}

/// The characters that a license key is drawn from.
pub open spec fn key_alphabet() -> Seq<char> {
    "ABCDEFGHIJKLMNOPQRSTUVWXYZ0123456789"@
}

/// Four characters of the alphabet, picked by four numbers beginning at
/// `picks[from]`.
pub open spec fn key_group(picks: Seq<usize>, from: int) -> Seq<char> {
    seq![
        key_alphabet()[picks[from] as int],
        key_alphabet()[picks[from + 1] as int],
        key_alphabet()[picks[from + 2] as int],
        key_alphabet()[picks[from + 3] as int],
    ]
}

/// The numbers can pick a key: there are twelve, each an index into the
/// alphabet.
pub open spec fn picks_a_key(picks: Seq<usize>) -> bool {
    picks.len() == 12 && forall|i: int| 0 <= i < 12 ==> picks[i] < 36
}

/// The license key that twelve picks spell: `MONTH-` and three groups of
/// four characters with hyphens between them.
pub open spec fn key_of(picks: Seq<usize>) -> Seq<char> {
    "MONTH-"@ + key_group(picks, 0) + "-"@ + key_group(picks, 4) + "-"@ + key_group(picks, 8)
}

/// Spells the license key that the picks stand for; `None` unless there
/// are twelve picks, each below 36.
pub fn license_key_from(picks: &Vec<usize>) -> (r: Option<String>)
    ensures
        match r {
            Some(key) => picks_a_key(picks@) && key@ == key_of(picks@),
            None => !picks_a_key(picks@),
        },
{
    if picks.len() != 12 {
        return None;
    }
    let alphabet = to_chars("ABCDEFGHIJKLMNOPQRSTUVWXYZ0123456789");
    proof {
        reveal_strlit("ABCDEFGHIJKLMNOPQRSTUVWXYZ0123456789");
    }
    let mut out = to_chars("MONTH-");
    let ghost head = out@;
    let mut i: usize = 0;
    while i < 12
        invariant
            i <= 12,
            picks@.len() == 12,
            alphabet@ == key_alphabet(),
            alphabet@.len() == 36,
            head == "MONTH-"@,
            forall|j: int| 0 <= j < i ==> picks@[j] < 36,
            i == 0 ==> out@ == head,
            0 < i <= 4 ==> out@ == head + key_group(picks@, 0).take(i as int),
            4 < i <= 8 ==> out@ == head + key_group(picks@, 0) + "-"@ + key_group(picks@, 4).take(
                i - 4,
            ),
            8 < i ==> out@ == head + key_group(picks@, 0) + "-"@ + key_group(picks@, 4) + "-"@
                + key_group(picks@, 8).take(i - 8),
        decreases 12 - i,
    {
        let pick = picks[i];
        if pick >= 36 {
            return None;
        }
        let ghost before = out@;
        if i == 4 || i == 8 {
            out.push('-');
            proof {
                reveal_strlit("-");
                assert("-"@ =~= seq!['-']);
                if i == 4 {
                    assert(key_group(picks@, 0).take(4) =~= key_group(picks@, 0));
                    assert(out@ =~= head + key_group(picks@, 0) + "-"@);
                } else {
                    assert(key_group(picks@, 4).take(4) =~= key_group(picks@, 4));
                    assert(out@ =~= head + key_group(picks@, 0) + "-"@ + key_group(picks@, 4)
                        + "-"@);
                }
            }
        }
        let ghost joined = out@;
        out.push(alphabet[pick]);
        proof {
            if i < 4 {
                assert(key_group(picks@, 0).take(i + 1) =~= key_group(picks@, 0).take(
                    i as int,
                ).push(alphabet@[pick as int]));
                assert(out@ =~= head + key_group(picks@, 0).take(i + 1));
            } else if i < 8 {
                assert(key_group(picks@, 4).take(i - 4 + 1) =~= key_group(picks@, 4).take(
                    i - 4,
                ).push(alphabet@[pick as int]));
                assert(out@ =~= head + key_group(picks@, 0) + "-"@ + key_group(picks@, 4).take(
                    i - 4 + 1,
                ));
            } else {
                assert(key_group(picks@, 8).take(i - 8 + 1) =~= key_group(picks@, 8).take(
                    i - 8,
                ).push(alphabet@[pick as int]));
                assert(out@ =~= head + key_group(picks@, 0) + "-"@ + key_group(picks@, 4) + "-"@
                    + key_group(picks@, 8).take(i - 8 + 1));
            }
        }
        i += 1;
    }
    assert(key_group(picks@, 8).take(4) =~= key_group(picks@, 8));
    Some(from_chars(&out))
}

/// Makes a new license key from twelve random picks.
pub fn generate_license_key() -> (r: String)
    ensures
        exists|picks: Seq<usize>| picks_a_key(picks) && r@ == #[trigger] key_of(picks),
{
    let mut picks: Vec<usize> = Vec::new();
    let mut i: usize = 0;
    while i < 12
        invariant
            i <= 12,
            picks@.len() == i,
            forall|j: int| 0 <= j < i ==> picks@[j] < 36,
        decreases 12 - i,
    {
        picks.push(random_below(36));
        i += 1;
    }
    match license_key_from(&picks) {
        Some(key) => key,
        None => String::new(),
    }
}

/// Makes the reference of a payment that is created at `timestamp`; the
/// number that tells it from others of the same second is drawn at random.
pub fn new_payment_reference(timestamp: i64) -> (r: String)
    ensures
        exists|random: nat| random <= u16::MAX && r@ == #[trigger] reference_of(
            timestamp as int,
            random,
        ),
{
    let random = random_u16();
    let r = payment_reference(timestamp, random);
    assert(r@ == reference_of(timestamp as int, random as nat));
    r
}

/// Looks into the payment `payment_ref` at the given time: it is
/// `expired` once its window has passed, `completed` with a fresh license
/// key if it was received, and `pending` otherwise. `now_text` is the time
/// as it is to be written into a completed payment.
pub fn check_promptpay_status(payment_ref: String, now_secs: i64, now_nanos: u32, now_text: String) -> (r:
    PaymentStatus)
    ensures
        r@.payment_ref == payment_ref@,
        r@ == status_of(
            payment_ref@,
            now_secs as int,
            now_nanos as nat,
            false,
            Seq::empty(),
            now_text@,
        ),
{
    if is_payment_expired(payment_ref.as_str(), now_secs, now_nanos) {
        return payment_status(payment_ref, now_secs, now_nanos, false, String::new(), now_text);
    }
    let paid = simulate_payment_check(payment_ref.as_str());
    let license_key = if paid {
        generate_license_key()
    } else {
        String::new()
    };
    payment_status(payment_ref, now_secs, now_nanos, paid, license_key, now_text)
}

/// The character that stands for six bits in base64.
pub open spec fn base64_char(v: u8) -> char {
    if v < 26 {
        (65 + v) as char
    } else if v < 52 {
        (71 + v) as char
    } else if v < 62 {
        (v - 4) as char
    } else if v == 62 {
        '+'
    } else {
        '/'
    }
}

/// The bytes in base64, with the standard alphabet and padded with `=`.
pub open spec fn base64_of(bytes: Seq<u8>) -> Seq<char>
    decreases bytes.len(),
{
    if bytes.len() == 0 {
        Seq::empty()
    } else if bytes.len() == 1 {
        seq![base64_char(bytes[0] >> 2), base64_char((bytes[0] & 3) << 4), '=', '=']
    } else if bytes.len() == 2 {
        seq![
            base64_char(bytes[0] >> 2),
            base64_char(((bytes[0] & 3) << 4) | (bytes[1] >> 4)),
            base64_char((bytes[1] & 15) << 2),
            '=',
        ]
    } else {
        seq![
            base64_char(bytes[0] >> 2),
            base64_char(((bytes[0] & 3) << 4) | (bytes[1] >> 4)),
            base64_char(((bytes[1] & 15) << 2) | (bytes[2] >> 6)),
            base64_char(bytes[2] & 63),
        ] + base64_of(bytes.skip(3))
    }
}

/// The encoder can tell how long its output for this many bytes will be
/// without running out of the machine's integers.
pub open spec fn base64_fits(len: nat) -> bool {
    len / 3 * 4 + 4 <= usize::MAX
}

/// Encodes bytes with `Engine::encode` of the base64 library's engine
/// `general_purpose::STANDARD`: the standard alphabet, padded with `=`.
/// The engine gives up on inputs for which it cannot count its output.
#[verifier::external_body]
fn encode_standard(bytes: &[u8]) -> (r: String)
    requires
        base64_fits(bytes@.len()),
    ensures
        r@ == base64_of(bytes@),
{
    base64::engine::general_purpose::STANDARD.encode(bytes)
}

/// Writes bytes in base64, with the standard alphabet and padded with `=`;
/// `None` for more bytes than the encoder can count the output of.
pub fn base64_encode(bytes: &[u8]) -> (r: Option<String>)
    ensures
        match r {
            Some(text) => base64_fits(bytes@.len()) && text@ == base64_of(bytes@),
            None => !base64_fits(bytes@.len()),
        },
{
    if bytes.len() / 3 <= (usize::MAX - 4) / 4 {
        Some(encode_standard(bytes))
    } else {
        None
    }
}

/// The picture of the QR code that carries `data`, as
/// `qrcode::QrCode::with_error_correction_level` builds it at the highest
/// level of error correction and as its renderer draws it in SVG: at least
/// `min_side` pixels wide and high, in the colors `dark` and `light`. A
/// text that no QR code can carry yields the complaint of the library.
pub uninterp spec fn qr_picture(data: Seq<char>, min_side: u32, dark: Seq<char>, light: Seq<char>) -> Result<
    Seq<char>,
    Seq<char>,
>;

/// Builds the QR code of `data` with
/// `qrcode::QrCode::with_error_correction_level` at the level `H` and has
/// it drawn in SVG with `Renderer::min_dimensions`, `dark_color`,
/// `light_color` and `build`. The side is bounded so that the renderer's
/// arithmetic on it stays within 32 bits.
#[verifier::external_body]
fn draw_qr(data: &str, min_side: u32, dark: &str, light: &str) -> (r: Result<String, String>)
    requires
        min_side <= 1_000_000,
    ensures
        match r {
            Ok(picture) => qr_picture(data@, min_side, dark@, light@) == Ok::<Seq<char>, Seq<char>>(
                picture@,
            ),
            Err(complaint) => qr_picture(data@, min_side, dark@, light@) == Err::<
                Seq<char>,
                Seq<char>,
            >(complaint@),
        },
{
    match qrcode::QrCode::with_error_correction_level(data, qrcode::EcLevel::H) {
        Ok(code) => Ok(
            code.render().min_dimensions(min_side, min_side).dark_color(
                qrcode::render::svg::Color(dark),
            ).light_color(qrcode::render::svg::Color(light)).build(),
        ),
        Err(complaint) => Err(complaint.to_string()),
    }
}

/// The picture of a payment's QR code as it is handed to the control
/// surface: black on white, at least 400 pixels a side, the bytes of the
/// SVG in base64. A picture too long to be encoded is an error.
pub open spec fn payment_picture_of(data: Seq<char>) -> Result<Seq<char>, Seq<char>> {
    match qr_picture(data, 400, "#000000"@, "#FFFFFF"@) {
        Ok(picture) => if base64_fits(encode_utf8(picture).len()) {
            Ok(base64_of(encode_utf8(picture)))
        } else {
            Err("QR Code creation failed: picture too long"@)
        },
        Err(complaint) => Err("QR Code creation failed: "@ + complaint),
    }
}

/// Draws the QR code of a payload and encodes the picture for the
/// control surface.
pub fn payment_picture(data: &str) -> (r: Result<String, String>)
    ensures
        match r {
            Ok(picture) => payment_picture_of(data@) == Ok::<Seq<char>, Seq<char>>(picture@),
            Err(why) => payment_picture_of(data@) == Err::<Seq<char>, Seq<char>>(why@),
        },
{
    match draw_qr(data, 400, "#000000", "#FFFFFF") {
        Ok(picture) => match base64_encode(picture.as_str().as_bytes()) {
            Some(encoded) => Ok(encoded),
            None => Err("QR Code creation failed: picture too long".to_owned()),
        },
        Err(complaint) => Err("QR Code creation failed: ".to_owned().concat(complaint.as_str())),
    }
}

} // verus!
