//! The order-creation core: the generated order identifier, the fixed
//! payload sent to the payment provider, and the handling of the
//! provider's response.

use chrono::{Datelike, Timelike};
use vstd::prelude::*;
use vstd::string::StrSliceExecFns;
use vstd::string::StringExecFns;
use crate::jsonio::{json_string_at, json_string_lookup};
use crate::jsontext::{escape_json, json_escape, push_char};
use crate::store::OrderStore;

verus! {

/// One decimal digit character, for a value below ten.
pub open spec fn dec_digit(n: int) -> char {
    if n == 0 {
        '0'
    } else if n == 1 {
        '1'
    } else if n == 2 {
        '2'
    } else if n == 3 {
        '3'
    } else if n == 4 {
        '4'
    } else if n == 5 {
        '5'
    } else if n == 6 {
        '6'
    } else if n == 7 {
        '7'
    } else if n == 8 {
        '8'
    } else {
        '9'
    }
}

/// The decimal digits of `n`, most significant first, no leading zeros.
pub open spec fn dec_digits(n: int) -> Seq<char>
    decreases n,
{
    if n < 10 {
        seq![dec_digit(n)]
    } else {
        dec_digits(n / 10).push(dec_digit(n % 10))
    }
}

/// `k` zero characters.
pub open spec fn zeros(k: int) -> Seq<char>
    decreases k,
{
    if k <= 0 {
        Seq::empty()
    } else {
        zeros(k - 1).push('0')
    }
}

/// The decimal digits of `n`, left-padded with zeros to at least `w`
/// characters.
pub open spec fn padded_decimal(n: int, w: int) -> Seq<char> {
    zeros(w - dec_digits(n).len()) + dec_digits(n)
}

fn dec_digit_char(n: u32) -> (c: char)
    requires
        n < 10,
    ensures
        c == dec_digit(n as int),
{
    match n {
        0 => '0',
        1 => '1',
        2 => '2',
        3 => '3',
        4 => '4',
        5 => '5',
        6 => '6',
        7 => '7',
        8 => '8',
        _ => '9',
    }
}

fn dec_string(n: u32) -> (r: String)
    ensures
        r@ == dec_digits(n as int),
    decreases n,
{
    if n < 10 {
        let mut r = String::new();
        push_char(&mut r, dec_digit_char(n));
        proof {
            assert(r@ =~= seq![dec_digit(n as int)]);
        }
        r
    } else {
        let mut r = dec_string(n / 10);
        push_char(&mut r, dec_digit_char(n % 10));
        r
    }
}

/// The decimal rendering of `n`, left-padded with zeros to at least `w`
/// characters.
pub fn padded_decimal_string(n: u32, w: usize) -> (r: String)
    ensures
        r@ == padded_decimal(n as int, w as int),
{
    let digits = dec_string(n);
    let len = digits.as_str().unicode_len();
    let mut r = String::new();
    let mut k: usize = len;
    proof {
        assert(r@ =~= zeros(0));
    }
    while k < w
        invariant
            len <= k,
            k <= w || k == len,
            len == dec_digits(n as int).len(),
            r@ == zeros(k - len),
        decreases w - k,
    {
        push_char(&mut r, '0');
        proof {
            assert(zeros(k + 1 - len) == zeros(k - len).push('0'));
        }
        k += 1;
    }
    r.append(digits.as_str());
    proof {
        assert(if w >= len {
            k - len == w - dec_digits(n as int).len()
        } else {
            k - len == 0 && w - dec_digits(n as int).len() <= 0
        });
        assert(zeros(k - len) =~= zeros(w - dec_digits(n as int).len()));
    }
    r
}

/// The generated order identifier: `INV-` and the compact UTC date-time,
/// year padded to four digits, the other fields to two.
pub open spec fn order_id_text(
    year: int,
    month: int,
    day: int,
    hour: int,
    minute: int,
    second: int,
) -> Seq<char> {
    "INV-"@ + padded_decimal(year, 4) + padded_decimal(month, 2) + padded_decimal(day, 2)
        + padded_decimal(hour, 2) + padded_decimal(minute, 2) + padded_decimal(second, 2)
}

/// Builds the order identifier for the given UTC date-time parts.
pub fn order_id_from_parts(
    year: u32,
    month: u32,
    day: u32,
    hour: u32,
    minute: u32,
    second: u32,
) -> (r: String)
    ensures
        r@ == order_id_text(
            year as int,
            month as int,
            day as int,
            hour as int,
            minute as int,
            second as int,
        ),
{
    let mut r = "INV-".to_owned();
    let y = padded_decimal_string(year, 4);
    r.append(y.as_str());
    let mo = padded_decimal_string(month, 2);
    r.append(mo.as_str());
    let d = padded_decimal_string(day, 2);
    r.append(d.as_str());
    let h = padded_decimal_string(hour, 2);
    r.append(h.as_str());
    let mi = padded_decimal_string(minute, 2);
    r.append(mi.as_str());
    let s = padded_decimal_string(second, 2);
    r.append(s.as_str());
    proof {
        assert(r@ =~= order_id_text(
            year as int,
            month as int,
            day as int,
            hour as int,
            minute as int,
            second as int,
        ));
    }
    r
}

/// Relies on `chrono::Utc::now` with the `Datelike` and `Timelike`
/// accessors: the current UTC date-time, with the documented field ranges;
/// nothing is promised of which instant comes back.
#[verifier::external_body]
fn utc_now_parts() -> (r: (i32, u32, u32, u32, u32, u32))
    ensures
        1 <= r.1 <= 12,
        1 <= r.2 <= 31,
        r.3 <= 23,
        r.4 <= 59,
        r.5 <= 59,
{
    let now = chrono::Utc::now();
    (now.year(), now.month(), now.day(), now.hour(), now.minute(), now.second())
}

/// A fresh order identifier derived from the current UTC time: `INV-` and
/// fourteen digits of date-time, a year before the common era rendered as
/// year zero.
pub fn fresh_order_id() -> (r: String)
    ensures
        exists|y: int, mo: int, d: int, h: int, mi: int, s: int|
            0 <= y && 1 <= mo <= 12 && 1 <= d <= 31 && 0 <= h <= 23 && 0 <= mi <= 59 && 0 <= s
                <= 59 && r@ == #[trigger] order_id_text(y, mo, d, h, mi, s),
{
    let (year, month, day, hour, minute, second) = utc_now_parts();
    let y: u32 = if year < 0 {
        0
    } else {
        year as u32
    };
    let r = order_id_from_parts(y, month, day, hour, minute, second);
    proof {
        assert(r@ == order_id_text(
            y as int,
            month as int,
            day as int,
            hour as int,
            minute as int,
            second as int,
        ));
    }
    r
}

/// The fixed order-creation payload sent to the provider, with the
/// generated order identifier spliced in as a JSON string.
pub open spec fn payload_text(order_id: Seq<char>) -> Seq<char> {
    "{\"title\":\"Premium Subscription Box\",\"order_id\":\""@ + json_escape(order_id)
        + "\",\"currency\":\"TON\",\"items\":[{\"title\":\"Exclusive Travel Package\",\"description\":\"A luxurious 5-day trip to Bali with first-class accommodation.\",\"image_url\":\"https://www.luxurytravelmagazine.com/files/610/1/2901/Kayon-Jungle-aerial_reg.jpg\",\"price\":0.5,\"count\":1,\"item_id\":\"id-987654\"},{\"title\":\"Gourmet Dinner Experience\",\"description\":\"A 7-course gourmet dinner at a Michelin-starred restaurant.\",\"image_url\":\"https://www.luxurytravelmagazine.com/files/610/2/2572/Samabe-restaurant_big_reg.jpg\",\"price\":0.15,\"count\":2,\"item_id\":\"id-654321\"}],\"meta\":{\"telegram_id\":\"123456789\"},\"captured\":false}"@
}

/// Builds the order-creation payload for one generated order identifier.
pub fn order_payload_json(order_id: &str) -> (r: String)
    ensures
        r@ == payload_text(order_id@),
{
    let mut out = "{\"title\":\"Premium Subscription Box\",\"order_id\":\"".to_owned();
    let eid = escape_json(order_id);
    out.append(eid.as_str());
    out.append(
        "\",\"currency\":\"TON\",\"items\":[{\"title\":\"Exclusive Travel Package\",\"description\":\"A luxurious 5-day trip to Bali with first-class accommodation.\",\"image_url\":\"https://www.luxurytravelmagazine.com/files/610/1/2901/Kayon-Jungle-aerial_reg.jpg\",\"price\":0.5,\"count\":1,\"item_id\":\"id-987654\"},{\"title\":\"Gourmet Dinner Experience\",\"description\":\"A 7-course gourmet dinner at a Michelin-starred restaurant.\",\"image_url\":\"https://www.luxurytravelmagazine.com/files/610/2/2572/Samabe-restaurant_big_reg.jpg\",\"price\":0.15,\"count\":2,\"item_id\":\"id-654321\"}],\"meta\":{\"telegram_id\":\"123456789\"},\"captured\":false}",
    );
    proof {
        assert(out@ =~= payload_text(order_id@));
    }
    out
}

/// What an order-creation request led to.
pub enum CreateOutcome {
    /// The provider accepted the order: the stored record.
    Created { uuid: String, status: String },
    /// Transport failure, a non-success provider status, or a response
    /// without the required fields: answered 500, the table untouched.
    Failed,
}

/// The outcome at the specification level.
pub enum CreateStep {
    Created { uuid: Seq<char>, status: Seq<char> },
    Failed,
}

impl View for CreateOutcome {
    type V = CreateStep;

    open spec fn view(&self) -> CreateStep {
        match self {
            CreateOutcome::Created { uuid, status } => CreateStep::Created {
                uuid: uuid@,
                status: status@,
            },
            CreateOutcome::Failed => CreateStep::Failed,
        }
    }
}

/// The HTTP status code each outcome is answered with.
pub open spec fn create_code_of(o: CreateStep) -> u16 {
    match o {
        CreateStep::Created { .. } => 200,
        CreateStep::Failed => 500,
    }
}

impl CreateOutcome {
    /// The HTTP status code this outcome is answered with.
    pub fn status_code(&self) -> (c: u16)
        ensures
            c == create_code_of(self@),
    {
        match self {
            CreateOutcome::Created { .. } => 200,
            CreateOutcome::Failed => 500,
        }
    }
}

/// The order-creation decision after the provider call: from the
/// provider's success flag and response body and the current table to the
/// outcome and the new table.
pub open spec fn create_step(
    success: bool,
    body: Seq<char>,
    store: Map<Seq<char>, Seq<char>>,
) -> (CreateStep, Map<Seq<char>, Seq<char>>) {
    if !success {
        (CreateStep::Failed, store)
    } else {
        match (json_string_at(body, "/uuid"@), json_string_at(body, "/status"@)) {
            (Some(u), Some(st)) => (
                CreateStep::Created { uuid: u, status: st },
                store.insert(u, st),
            ),
            _ => (CreateStep::Failed, store),
        }
    }
}

/// Handles the provider's answer to an order-creation request: on success
/// with a well-formed record, stores it; on anything else, changes
/// nothing.
pub fn process_provider_response(
    store: &mut OrderStore,
    success: bool,
    body: &str,
) -> (r: CreateOutcome)
    requires
        old(store).wf(),
    ensures
        final(store).wf(),
        (r@, final(store)@) == create_step(success, body@, old(store)@),
{
    if !success {
        return CreateOutcome::Failed;
    }
    let uuid_opt = json_string_lookup(body, "/uuid");
    let status_opt = json_string_lookup(body, "/status");
    match (uuid_opt, status_opt) {
        (Some(uuid), Some(status)) => {
            store.upsert(uuid.clone(), status.clone());
            CreateOutcome::Created { uuid, status }
        },
        _ => CreateOutcome::Failed,
    }
}

} // verus!
