//! Texts of the administrative commands: the table of saved aliases and a
//! device's clock.

use vstd::prelude::*;
use crate::hosts::{alias_view, protocol_name, AliasView, HostEntry};
use crate::json::{member, u64_of, Json};
use crate::text::{append_chars, chars_of, decimal, decimal_chars, decimal_padded, decimal_padded_chars};

verus! {

/// `s` padded with spaces on the right to at least `w` characters.
pub open spec fn pad_right(s: Seq<char>, w: nat) -> Seq<char> {
    if s.len() >= w { s } else { s + Seq::new((w - s.len()) as nat, |i: int| ' ') }
}

fn append_padded(out: &mut String, s: &str, w: usize)
    ensures
        final(out)@ == old(out)@ + pad_right(s@, w as nat),
{
    let cs = chars_of(s);
    append_chars(out, &cs);
    if cs.len() < w {
        let mut k: usize = cs.len();
        let ghost base = out@;
        while k < w
            invariant
                cs@.len() <= k <= w,
                out@ == base + Seq::new((k - cs@.len()) as nat, |i: int| ' '),
            decreases w - k,
        {
            crate::text::push_char(out, ' ');
            k = k + 1;
            assert(out@ =~= base + Seq::new((k - cs@.len()) as nat, |i: int| ' '));
        }
    }
    assert(out@ =~= old(out)@ + pad_right(s@, w as nat));
}

/// One row of the alias table.
pub open spec fn alias_row(a: AliasView) -> Seq<char> {
    pad_right(a.0, 30) + " "@ + pad_right(a.1.0, 18) + " "@ + protocol_name(a.1.1) + "\n"@
}

/// The rows of the alias table, in order.
pub open spec fn alias_rows(list: Seq<AliasView>) -> Seq<char>
    decreases list.len(),
{
    if list.len() == 0 { Seq::empty() } else { alias_rows(list.drop_last()) + alias_row(list.last()) }
}

/// The alias table for the saved aliases `list` kept in file `file`: a
/// note on how to add one when there is none; otherwise a header, a rule,
/// one row per alias (name, IP, protocol) and a count.
pub open spec fn alias_table(list: Seq<AliasView>, file: Seq<char>) -> Seq<char> {
    if list.len() == 0 {
        "No saved aliases. Use `denki alias <name> <ip> [--klap]` to add one.\nFile: "@ + file
    } else {
        pad_right("Name"@, 30) + " "@ + pad_right("IP"@, 18) + " "@ + "Protocol"@ + "\n"@
            + Seq::new(58, |i: int| '\u{2500}') + "\n"@
            + alias_rows(list)
            + "("@ + decimal(list.len()) + " aliases in "@ + file + ")"@
    }
}

/// The alias table (see `alias_table`).
pub fn format_alias_rows(list: &[(String, HostEntry)], file: &str) -> (s: String)
    ensures
        s@ == alias_table(list@.map_values(|e: (String, HostEntry)| alias_view(e)), file@),
{
    let ghost views = list@.map_values(|e: (String, HostEntry)| alias_view(e));
    if list.len() == 0 {
        let mut s = String::from_str("No saved aliases. Use `denki alias <name> <ip> [--klap]` to add one.\nFile: ");
        s.append(file);
        return s;
    }
    let mut out = String::new();
    append_padded(&mut out, "Name", 30);
    out.append(" ");
    append_padded(&mut out, "IP", 18);
    out.append(" Protocol\n");
    let mut k: usize = 0;
    let ghost head = out@;
    while k < 58
        invariant
            k <= 58,
            out@ == head + Seq::new(k as nat, |i: int| '\u{2500}'),
        decreases 58 - k,
    {
        crate::text::push_char(&mut out, '\u{2500}');
        k = k + 1;
        assert(out@ =~= head + Seq::new(k as nat, |i: int| '\u{2500}'));
    }
    out.append("\n");
    let ghost top = out@;
    let mut i: usize = 0;
    while i < list.len()
        invariant
            i <= list@.len(),
            views == list@.map_values(|e: (String, HostEntry)| alias_view(e)),
            out@ == top + alias_rows(views.take(i as int)),
        decreases list@.len() - i,
    {
        assert(views.take(i + 1).drop_last() =~= views.take(i as int));
        assert(views.take(i + 1).last() == alias_view(list@[i as int]));
        let ghost before = out@;
        let (name, entry) = &list[i];
        append_padded(&mut out, name.as_str(), 30);
        out.append(" ");
        append_padded(&mut out, entry.ip.as_str(), 18);
        out.append(" ");
        let p = entry.protocol.name();
        out.append(p.as_str());
        out.append("\n");
        assert(out@ =~= before + alias_row(alias_view(list@[i as int])));
        i = i + 1;
    }
    assert(views.take(list@.len() as int) =~= views);
    out.append("(");
    append_chars(&mut out, &decimal_chars(list.len() as u64));
    out.append(" aliases in ");
    out.append(file);
    out.append(")");
    proof {
        reveal_strlit(" Protocol\n");
        reveal_strlit(" ");
        reveal_strlit("Protocol");
        reveal_strlit("\n");
    }
    assert(out@ =~= alias_table(views, file@));
    out
}

/// A numeric member of a clock reading, 0 when missing.
pub open spec fn clock_field(t: Json, key: Seq<char>) -> nat {
    match u64_of(member(t, key)) {
        Some(n) => n as nat,
        None => 0,
    }
}

/// The clock of a `get_time` answer as "YYYY-MM-DD hh:mm:ss" (fields
/// zero-padded, missing ones 0); none when the answer has no time.
pub open spec fn clock_text(resp: Json) -> Option<Seq<char>> {
    match member(resp, "time"@) {
        Some(tm) => match member(tm, "get_time"@) {
            Some(t) => Some(
                decimal_padded(clock_field(t, "year"@), 4) + "-"@ + decimal_padded(clock_field(t, "month"@), 2)
                    + "-"@ + decimal_padded(clock_field(t, "mday"@), 2) + " "@
                    + decimal_padded(clock_field(t, "hour"@), 2) + ":"@
                    + decimal_padded(clock_field(t, "min"@), 2) + ":"@
                    + decimal_padded(clock_field(t, "sec"@), 2),
            ),
            None => None,
        },
        None => None,
    }
}

fn field_or_zero(t: &Json, key: &str) -> (n: u64)
    ensures
        n as nat == clock_field(*t, key@),
{
    match t.get(key) {
        Some(v) => match v.as_u64() {
            Some(n) => n,
            None => 0,
        },
        None => 0,
    }
}

/// The clock of a `get_time` answer (see `clock_text`).
pub fn format_clock(resp: &Json) -> (r: Option<String>)
    ensures
        match r {
            Some(s) => clock_text(*resp) == Some(s@),
            None => clock_text(*resp) is None,
        },
{
    let t = match resp.get("time") {
        Some(tm) => match tm.get("get_time") {
            Some(t) => t,
            None => {
                return None;
            },
        },
        None => {
            return None;
        },
    };
    let mut s = String::new();
    append_chars(&mut s, &decimal_padded_chars(field_or_zero(t, "year"), 4));
    s.append("-");
    append_chars(&mut s, &decimal_padded_chars(field_or_zero(t, "month"), 2));
    s.append("-");
    append_chars(&mut s, &decimal_padded_chars(field_or_zero(t, "mday"), 2));
    s.append(" ");
    append_chars(&mut s, &decimal_padded_chars(field_or_zero(t, "hour"), 2));
    s.append(":");
    append_chars(&mut s, &decimal_padded_chars(field_or_zero(t, "min"), 2));
    s.append(":");
    append_chars(&mut s, &decimal_padded_chars(field_or_zero(t, "sec"), 2));
    Some(s)
}

} // verus!
