//! JSON text production: string escaping and the rendering of order
//! records and of the whole order table as JSON documents.

use vstd::prelude::*;
use vstd::string::StrSliceExecFns;
use vstd::string::StringExecFns;
use crate::sig::hex_digit;

verus! {

/// Relies on `String::push`: appends exactly the one character.
#[verifier::external_body]
pub(crate) fn push_char(s: &mut String, c: char)
    ensures
        final(s)@ == old(s)@.push(c),
{
    s.push(c);
}

/// How one character is written inside a JSON string literal: quote and
/// backslash get a backslash escape, control characters a `\u00..` escape,
/// and every other character stands as itself.
pub open spec fn escape_char(c: char) -> Seq<char> {
    if c == '"' {
        seq!['\\', '"']
    } else if c == '\\' {
        seq!['\\', '\\']
    } else if (c as u32) < 32 {
        seq!['\\', 'u', '0', '0', hex_digit(c as u32 as int / 16), hex_digit(c as u32 as int % 16)]
    } else {
        seq![c]
    }
}

/// The body of a JSON string literal for `s`: each character escaped.
pub open spec fn json_escape(s: Seq<char>) -> Seq<char>
    decreases s.len(),
{
    if s.len() == 0 {
        Seq::empty()
    } else {
        escape_char(s[0]) + json_escape(s.drop_first())
    }
}

proof fn lemma_json_escape_push(s: Seq<char>, c: char)
    ensures
        json_escape(s.push(c)) == json_escape(s) + escape_char(c),
    decreases s.len(),
{
    reveal_with_fuel(json_escape, 2);
    if s.len() == 0 {
        assert(s.push(c).drop_first() =~= Seq::<char>::empty());
        assert(s.push(c)[0] == c);
        assert(json_escape(s.push(c)) =~= escape_char(c) + Seq::<char>::empty());
        assert(json_escape(s.push(c)) =~= json_escape(s) + escape_char(c));
    } else {
        assert(s.push(c).drop_first() =~= s.drop_first().push(c));
        lemma_json_escape_push(s.drop_first(), c);
        assert(json_escape(s.push(c)) =~= json_escape(s) + escape_char(c));
    }
}

/// The lowercase hexadecimal digit character for `n`.
fn hex_digit_char(n: u32) -> (c: char)
    requires
        n < 16,
    ensures
        c == hex_digit(n as int),
{
    match n {
        0 => '0',
        1 => '1',
        2 => '2',
        3 => '3',
        4 => '4',
        5 => '5',
        6 => '6',
        7 => '7',
        8 => '8',
        9 => '9',
        10 => 'a',
        11 => 'b',
        12 => 'c',
        13 => 'd',
        14 => 'e',
        _ => 'f',
    }
}

/// Escapes `s` for inclusion in a JSON string literal.
pub fn escape_json(s: &str) -> (r: String)
    ensures
        r@ == json_escape(s@),
{
    let n = s.unicode_len();
    let mut out = String::new();
    let mut i: usize = 0;
    while i < n
        invariant
            i <= n,
            n == s@.len(),
            out@ == json_escape(s@.take(i as int)),
        decreases n - i,
    {
        let c = s.get_char(i);
        let ghost pre = out@;
        if c == '"' {
            push_char(&mut out, '\\');
            push_char(&mut out, '"');
        } else if c == '\\' {
            push_char(&mut out, '\\');
            push_char(&mut out, '\\');
        } else if (c as u32) < 32 {
            push_char(&mut out, '\\');
            push_char(&mut out, 'u');
            push_char(&mut out, '0');
            push_char(&mut out, '0');
            push_char(&mut out, hex_digit_char((c as u32) / 16));
            push_char(&mut out, hex_digit_char((c as u32) % 16));
        } else {
            push_char(&mut out, c);
        }
        proof {
            assert(out@ =~= pre + escape_char(c));
            assert(s@.take(i as int).push(s@[i as int]) =~= s@.take(i as int + 1));
            lemma_json_escape_push(s@.take(i as int), s@[i as int]);
        }
        i += 1;
    }
    proof {
        assert(s@.take(n as int) =~= s@);
    }
    out
}

/// The JSON object text for one order record.
pub open spec fn record_text(uuid: Seq<char>, status: Seq<char>) -> Seq<char> {
    "{\"uuid\":\""@ + json_escape(uuid) + "\",\"status\":\""@ + json_escape(status) + "\"}"@
}

/// Renders one order record as a JSON object.
pub fn record_json(uuid: &str, status: &str) -> (r: String)
    ensures
        r@ == record_text(uuid@, status@),
{
    let mut out = "{\"uuid\":\"".to_owned();
    let eu = escape_json(uuid);
    out.append(eu.as_str());
    out.append("\",\"status\":\"");
    let es = escape_json(status);
    out.append(es.as_str());
    out.append("\"}");
    proof {
        assert(out@ =~= record_text(uuid@, status@));
    }
    out
}

/// One key-value member of the order table document: the id as key, the
/// record as value.
pub open spec fn entry_text(uuid: Seq<char>, status: Seq<char>) -> Seq<char> {
    "\""@ + json_escape(uuid) + "\":"@ + record_text(uuid, status)
}

/// Renders one member of the order table document.
pub fn entry_json(uuid: &str, status: &str) -> (r: String)
    ensures
        r@ == entry_text(uuid@, status@),
{
    let mut out = "\"".to_owned();
    let eu = escape_json(uuid);
    out.append(eu.as_str());
    out.append("\":");
    let rec = record_json(uuid, status);
    out.append(rec.as_str());
    proof {
        assert(out@ =~= entry_text(uuid@, status@));
    }
    out
}

/// The comma-separated members of the order table document, one per entry,
/// in entry order.
pub open spec fn dump_body(entries: Seq<(Seq<char>, Seq<char>)>) -> Seq<char>
    decreases entries.len(),
{
    if entries.len() == 0 {
        Seq::empty()
    } else if entries.len() == 1 {
        entry_text(entries[0].0, entries[0].1)
    } else {
        dump_body(entries.drop_last()) + ","@ + entry_text(entries.last().0, entries.last().1)
    }
}

/// The whole order table as one JSON object keyed by order id.
pub open spec fn dump_text(entries: Seq<(Seq<char>, Seq<char>)>) -> Seq<char> {
    "{"@ + dump_body(entries) + "}"@
}

/// Appending one entry to the rendered list adds one member, with a comma
/// when it is not the first.
pub proof fn lemma_dump_body_step(entries: Seq<(Seq<char>, Seq<char>)>, i: int)
    requires
        0 <= i < entries.len(),
    ensures
        dump_body(entries.take(i + 1)) == if i == 0 {
            entry_text(entries[0].0, entries[0].1)
        } else {
            (dump_body(entries.take(i)) + ","@ + entry_text(entries[i].0, entries[i].1))
        },
{
    let t = entries.take(i + 1);
    assert(t.drop_last() =~= entries.take(i));
    assert(t.last() == entries[i]);
    if i == 0 {
        assert(t.len() == 1);
        assert(t[0] == entries[0]);
    }
}

} // verus!
