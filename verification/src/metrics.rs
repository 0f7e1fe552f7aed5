//! The qlog file pattern and the InfluxDB line-protocol record of a measurement.
use vstd::prelude::*;

verus! {

/// The decimal digit character of `d` (`d` below 10).
pub open spec fn digit_char(d: nat) -> char {
    if d == 0 { '0' }
    else if d == 1 { '1' }
    else if d == 2 { '2' }
    else if d == 3 { '3' }
    else if d == 4 { '4' }
    else if d == 5 { '5' }
    else if d == 6 { '6' }
    else if d == 7 { '7' }
    else if d == 8 { '8' }
    else { '9' }
}

/// The value of a decimal digit character.
pub open spec fn digit_value(c: char) -> nat {
    if c == '0' { 0 }
    else if c == '1' { 1 }
    else if c == '2' { 2 }
    else if c == '3' { 3 }
    else if c == '4' { 4 }
    else if c == '5' { 5 }
    else if c == '6' { 6 }
    else if c == '7' { 7 }
    else if c == '8' { 8 }
    else { 9 }
}

/// `n` written in decimal: its digits, most significant first, without
/// leading zeros (zero is written "0").
pub open spec fn decimal(n: nat) -> Seq<char>
    decreases n,
{
    if n < 10 {
        seq![digit_char(n)]
    } else {
        decimal(n / 10) + seq![digit_char(n % 10)]
    }
}

/// The number that a string of decimal digits denotes.
pub open spec fn decimal_value(s: Seq<char>) -> nat
    decreases s.len(),
{
    if s.len() == 0 {
        0
    } else {
        decimal_value(s.drop_last()) * 10 + digit_value(s.last())
    }
}

/// `c` is one of the characters '0' to '9'.
pub open spec fn is_digit(c: char) -> bool {
    c == '0' || c == '1' || c == '2' || c == '3' || c == '4' || c == '5' || c == '6' || c == '7'
        || c == '8' || c == '9'
}

/// The line-protocol record of the `nesquic_qlog` measurement.
pub open spec fn metrics_line(tag: Seq<char>, latency_ms: Seq<char>, timestamp_ns: nat) -> Seq<char> {
    "nesquic_qlog"@ + tag + " handshake_latency_ms="@ + latency_ms + " "@ + decimal(timestamp_ns)
}

/// The glob pattern of the qlog files of one endpoint role under a directory.
pub open spec fn sqlog_pattern_of(dir: Seq<char>, role: Seq<char>) -> Seq<char> {
    dir + "/"@ + role + "/*qlog"@
}

fn digit_str(d: u128) -> (s: &'static str)
    requires
        d < 10,
    ensures
        s@ == seq![digit_char(d as nat)],
{
    proof {
        reveal_strlit("0");
        reveal_strlit("1");
        reveal_strlit("2");
        reveal_strlit("3");
        reveal_strlit("4");
        reveal_strlit("5");
        reveal_strlit("6");
        reveal_strlit("7");
        reveal_strlit("8");
        reveal_strlit("9");
    }
    if d == 0 { "0" }
    else if d == 1 { "1" }
    else if d == 2 { "2" }
    else if d == 3 { "3" }
    else if d == 4 { "4" }
    else if d == 5 { "5" }
    else if d == 6 { "6" }
    else if d == 7 { "7" }
    else if d == 8 { "8" }
    else { "9" }
}

/// Appends `n` in decimal to `out`.
pub fn write_decimal(out: &mut String, n: u128)
    ensures
        final(out)@ == old(out)@ + decimal(n as nat),
    decreases n,
{
    if n >= 10 {
        write_decimal(out, n / 10);
    }
    out.append(digit_str(n % 10));
    proof {
        if n >= 10 {
            assert(decimal(n as nat) == decimal((n / 10) as nat) + seq![digit_char((n % 10) as nat)]);
        }
    }
}

/// The line-protocol record for the `nesquic_qlog` measurement:
/// `nesquic_qlog<tag_str> handshake_latency_ms=<latency_ms> <timestamp_ns>`,
/// with the latency as its caller wrote it and the timestamp in decimal.
pub fn extract_metrics(tag_str: &str, latency_ms: &str, timestamp_ns: u128) -> (line: String)
    ensures
        line@ == metrics_line(tag_str@, latency_ms@, timestamp_ns as nat),
{
    let mut line = String::new();
    line.append("nesquic_qlog");
    line.append(tag_str);
    line.append(" handshake_latency_ms=");
    line.append(latency_ms);
    line.append(" ");
    write_decimal(&mut line, timestamp_ns);
    line
}

/// The glob pattern `<dir>/<role>/*qlog` under which the qlog file of one
/// endpoint role is looked for.
pub fn sqlog_pattern(dir: &str, role: &str) -> (pattern: String)
    ensures
        pattern@ == sqlog_pattern_of(dir@, role@),
{
    let mut pattern = String::new();
    pattern.append(dir);
    pattern.append("/");
    pattern.append(role);
    pattern.append("/*qlog");
    pattern
}

/// Decimal writing is undone by reading: the digits of `decimal(n)` denote
/// `n`, all of them are digits, and only zero starts with '0'.
pub proof fn lemma_decimal_round_trip(n: nat)
    ensures
        decimal_value(decimal(n)) == n,
        forall|i: int| 0 <= i < decimal(n).len() ==> #[trigger] is_digit(decimal(n)[i]),
        decimal(n).len() >= 1,
        decimal(n)[0] == '0' ==> n == 0,
    decreases n,
{
    if n >= 10 {
        lemma_decimal_round_trip(n / 10);
        let s = decimal(n);
        let q = decimal(n / 10);
        assert(s.drop_last() =~= q);
        assert(s.last() == digit_char(n % 10));
        assert(digit_value(digit_char(n % 10)) == n % 10);
        assert(decimal_value(s) == decimal_value(q) * 10 + n % 10);
        assert forall|i: int| 0 <= i < s.len() implies #[trigger] is_digit(s[i]) by {
            if i < q.len() {
                assert(s[i] == q[i]);
            }
        }
        assert(s[0] == q[0]);
        assert(n == (n / 10) * 10 + n % 10);
    } else {
        let s = decimal(n);
        assert(s.drop_last() =~= Seq::<char>::empty());
        assert(decimal_value(s.drop_last()) == 0);
        assert(digit_value(digit_char(n)) == n);
    }
}

} // verus!
