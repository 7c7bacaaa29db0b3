//! The canonical JSON form of runs, as written to the mirror.
//!
//! The mirror holds a JSON array of run objects.  The rendering is defined
//! character by character here, including string escaping, so the content
//! handed to the mirror is pinned exactly.

use vstd::prelude::*;
use crate::text::{push_char, i32_to_string, i64_to_string, dec_int};
use crate::state::{state_str, state_to_string};
use crate::store::{Run, RunView, runs_seq};

verus! {

/// The hexadecimal digit character for `d`.
pub open spec fn hex_digit(d: int) -> char {
    if d == 0 { '0' }
    else if d == 1 { '1' }
    else if d == 2 { '2' }
    else if d == 3 { '3' }
    else if d == 4 { '4' }
    else if d == 5 { '5' }
    else if d == 6 { '6' }
    else if d == 7 { '7' }
    else if d == 8 { '8' }
    else if d == 9 { '9' }
    else if d == 10 { 'a' }
    else if d == 11 { 'b' }
    else if d == 12 { 'c' }
    else if d == 13 { 'd' }
    else if d == 14 { 'e' }
    else { 'f' }
}

/// JSON rendering of one character inside a string literal: quote and
/// backslash escaped, common control characters by letter, any other
/// control character as a unicode escape, everything else as itself.
pub open spec fn esc_char(c: char) -> Seq<char> {
    if c == '"' {
        seq!['\\', '"']
    } else if c == '\\' {
        seq!['\\', '\\']
    } else if c == '\n' {
        seq!['\\', 'n']
    } else if c == '\r' {
        seq!['\\', 'r']
    } else if c == '\t' {
        seq!['\\', 't']
    } else if (c as int) < 32 {
        seq!['\\', 'u', '0', '0', hex_digit((c as int) / 16), hex_digit((c as int) % 16)]
    } else {
        seq![c]
    }
}

/// A string's characters, each escaped.
pub open spec fn json_escaped(s: Seq<char>) -> Seq<char>
    decreases s.len(),
{
    if s.len() == 0 {
        Seq::empty()
    } else {
        json_escaped(s.drop_last()) + esc_char(s.last())
    }
}

/// An optional string as a JSON value: `null`, or a quoted escaped string.
pub open spec fn json_opt_str(o: Option<Seq<char>>) -> Seq<char> {
    match o {
        None => "null"@,
        Some(s) => seq!['"'] + json_escaped(s) + seq!['"'],
    }
}

/// The canonical JSON object for one run.
pub open spec fn json_of_run(r: RunView) -> Seq<char> {
    "{\"run_number\":"@ + dec_int(r.run_number) + ",\"file_number\":"@ + dec_int(r.file_number)
        + ",\"run_start_date\":"@ + dec_int(r.run_start_date) + ",\"state\":\""@ + state_str(
        r.state,
    ) + "\",\"url\":"@ + json_opt_str(r.url) + "}"@
}

/// The comma-separated JSON objects of a run list.
pub open spec fn json_items(rs: Seq<RunView>) -> Seq<char>
    decreases rs.len(),
{
    if rs.len() == 0 {
        Seq::empty()
    } else if rs.len() == 1 {
        json_of_run(rs[0])
    } else {
        json_items(rs.drop_last()) + seq![','] + json_of_run(rs.last())
    }
}

/// The canonical JSON array for a run list.
pub open spec fn json_of_runs(rs: Seq<RunView>) -> Seq<char> {
    seq!['['] + json_items(rs) + seq![']']
}

fn exec_hex_digit(d: u32) -> (c: char)
    requires
        d < 16,
    ensures
        c == hex_digit(d as int),
{
    if d == 0 { '0' }
    else if d == 1 { '1' }
    else if d == 2 { '2' }
    else if d == 3 { '3' }
    else if d == 4 { '4' }
    else if d == 5 { '5' }
    else if d == 6 { '6' }
    else if d == 7 { '7' }
    else if d == 8 { '8' }
    else if d == 9 { '9' }
    else if d == 10 { 'a' }
    else if d == 11 { 'b' }
    else if d == 12 { 'c' }
    else if d == 13 { 'd' }
    else if d == 14 { 'e' }
    else { 'f' }
}

/// Appends the escaped form of one character.
fn append_esc_char(out: &mut String, c: char)
    ensures
        final(out)@ == old(out)@ + esc_char(c),
{
    if c == '"' {
        push_char(out, '\\');
        push_char(out, '"');
    } else if c == '\\' {
        push_char(out, '\\');
        push_char(out, '\\');
    } else if c == '\n' {
        push_char(out, '\\');
        push_char(out, 'n');
    } else if c == '\r' {
        push_char(out, '\\');
        push_char(out, 'r');
    } else if c == '\t' {
        push_char(out, '\\');
        push_char(out, 't');
    } else if (c as u32) < 32 {
        let u = c as u32;
        push_char(out, '\\');
        push_char(out, 'u');
        push_char(out, '0');
        push_char(out, '0');
        push_char(out, exec_hex_digit(u / 16));
        push_char(out, exec_hex_digit(u % 16));
    } else {
        push_char(out, c);
    }
    proof {
        assert(final(out)@ =~= old(out)@ + esc_char(c));
    }
}

/// Appends the escaped form of a whole string.
#[verifier::loop_isolation(false)]
fn append_json_escaped(out: &mut String, s: &str)
    ensures
        final(out)@ == old(out)@ + json_escaped(s@),
{
    let n = s.unicode_len();
    let mut i: usize = 0;
    proof {
        assert(json_escaped(s@.subrange(0, 0)) =~= Seq::<char>::empty());
        assert(out@ =~= out@ + json_escaped(s@.subrange(0, 0)));
    }
    while i < n
        invariant
            i <= n,
            n == s@.len(),
            out@ == old(out)@ + json_escaped(s@.subrange(0, i as int)),
        decreases n - i,
    {
        append_esc_char(out, s.get_char(i));
        proof {
            assert(s@.subrange(0, i + 1).drop_last() =~= s@.subrange(0, i as int));
            assert(s@.subrange(0, i + 1).last() == s@[i as int]);
            assert(out@ =~= old(out)@ + json_escaped(s@.subrange(0, i + 1)));
        }
        i += 1;
    }
    proof {
        assert(s@.subrange(0, n as int) =~= s@);
    }
}

/// Renders one run as its canonical JSON object.
pub fn run_to_json(run: &Run) -> (r: String)
    ensures
        r@ == json_of_run(run@),
{
    let mut out = String::new();
    out.append("{\"run_number\":");
    let rn = i32_to_string(run.run_number);
    out.append(rn.as_str());
    out.append(",\"file_number\":");
    let fnum = i32_to_string(run.file_number);
    out.append(fnum.as_str());
    out.append(",\"run_start_date\":");
    let ts = i64_to_string(run.run_start_date);
    out.append(ts.as_str());
    out.append(",\"state\":\"");
    let st = state_to_string(run.state);
    out.append(st.as_str());
    out.append("\",\"url\":");
    match &run.url {
        None => {
            out.append("null");
        },
        Some(u) => {
            push_char(&mut out, '"');
            append_json_escaped(&mut out, u.as_str());
            push_char(&mut out, '"');
        },
    }
    out.append("}");
    proof {
        assert(out@ =~= json_of_run(run@));
    }
    out
}

/// Renders a run list as its canonical JSON array.
#[verifier::loop_isolation(false)]
pub fn runs_to_json(runs: &Vec<Run>) -> (r: String)
    ensures
        r@ == json_of_runs(runs_seq(runs@)),
{
    let ghost views = runs_seq(runs@);
    let mut out = String::new();
    push_char(&mut out, '[');
    let n = runs.len();
    let mut i: usize = 0;
    proof {
        assert(json_items(views.subrange(0, 0)) =~= Seq::<char>::empty());
        assert(out@ =~= seq!['['] + json_items(views.subrange(0, 0)));
    }
    while i < n
        invariant
            i <= n,
            n == views.len(),
            views == runs_seq(runs@),
            out@ == seq!['['] + json_items(views.subrange(0, i as int)),
        decreases n - i,
    {
        if i > 0 {
            push_char(&mut out, ',');
        }
        let item = run_to_json(&runs[i]);
        out.append(item.as_str());
        proof {
            assert(views.subrange(0, i + 1).drop_last() =~= views.subrange(0, i as int));
            assert(views.subrange(0, i + 1).last() == views[i as int]);
            assert(views[i as int] == runs@[i as int]@);
            if i == 0 {
                assert(views.subrange(0, 1).len() == 1);
                assert(out@ =~= seq!['['] + json_items(views.subrange(0, i + 1)));
            } else {
                assert(out@ =~= seq!['['] + json_items(views.subrange(0, i + 1)));
            }
        }
        i += 1;
    }
    push_char(&mut out, ']');
    proof {
        assert(views.subrange(0, n as int) =~= views);
        assert(out@ =~= json_of_runs(views));
    }
    out
}

} // verus!
