//! Text: characters in and out of strings, decimal numbers, joining, white space, and the
//! one-line form of an error message.

use vstd::prelude::*;

verus! {

/// How many characters of an error message are kept.
pub const SHORT_ERROR_CHARS: usize = 90;

/// `String::push` appends the given character to the end of the string.
pub assume_specification[ String::push ](s: &mut String, c: char)
    ensures
        final(s)@ == old(s)@.push(c),
;

/// The characters of `s`, in order.
pub fn chars_of(s: &str) -> (chars: Vec<char>)
    ensures
        chars@ == s@,
{
    let mut chars: Vec<char> = Vec::new();
    for c in it: s.chars()
        invariant
            it.seq() == s@,
            chars@ == s@.take(it.index() as int),
    {
        chars.push(c);
    }
    chars
}

/// Whether two texts are the same, character by character.
pub fn same_text(a: &str, b: &str) -> (same: bool)
    ensures
        same == (a@ == b@),
{
    let x = chars_of(a);
    let y = chars_of(b);
    if x.len() != y.len() {
        return false;
    }
    let mut i: usize = 0;
    while i < x.len()
        invariant
            i <= x.len(),
            x.len() == y.len(),
            x@ == a@,
            y@ == b@,
            forall|j: int| 0 <= j < i ==> a@[j] == b@[j],
        decreases x.len() - i,
    {
        if x[i] != y[i] {
            return false;
        }
        i += 1;
    }
    assert(a@ =~= b@);
    true
}

/// The decimal digit that stands for `d`.
pub open spec fn digit(d: int) -> char {
    (48 + d) as char
}

/// `n` written in decimal, without leading zeros.
pub open spec fn decimal(n: nat) -> Seq<char>
    decreases n,
{
    if n < 10 {
        seq![digit(n as int)]
    } else {
        decimal(n / 10).push(digit((n % 10) as int))
    }
}

/// Appends `n` in decimal to `out`.
pub fn push_decimal(out: &mut String, n: u64)
    ensures
        final(out)@ == old(out)@ + decimal(n as nat),
    decreases n,
{
    if n >= 10 {
        push_decimal(out, n / 10);
    }
    let d: u8 = (n % 10) as u8;
    out.push((48 + d) as char);
}

/// `parts` one after another, with `sep` between neighbours.
pub open spec fn joined(parts: Seq<Seq<char>>, sep: Seq<char>) -> Seq<char>
    decreases parts.len(),
{
    if parts.len() <= 1 {
        if parts.len() == 0 {
            Seq::empty()
        } else {
            parts[0]
        }
    } else {
        joined(parts.drop_last(), sep) + sep + parts.last()
    }
}

/// The parts in one string, with `sep` between neighbours.
pub fn join(parts: &Vec<String>, sep: &str) -> (out: String)
    ensures
        out@ == joined(parts.deep_view(), sep@),
{
    let mut out = String::new();
    let mut i: usize = 0;
    assert(parts.deep_view().take(0) =~= Seq::empty());
    while i < parts.len()
        invariant
            i <= parts.len(),
            out@ == joined(parts.deep_view().take(i as int), sep@),
        decreases parts.len() - i,
    {
        let ghost done = parts.deep_view().take(i as int + 1);
        assert(done.drop_last() =~= parts.deep_view().take(i as int));
        assert(done.last() == parts@[i as int]@);
        if i > 0 {
            out.append(sep);
        }
        out.append(parts[i].as_str());
        assert(i == 0 ==> out@ =~= done[0]);
        i += 1;
    }
    assert(parts.deep_view().take(i as int) =~= parts.deep_view());
    out
}

/// A line of the log: the time in seconds since the epoch, and the message.
pub open spec fn stamped(now: u64, msg: Seq<char>) -> Seq<char> {
    "["@ + decimal(now as nat) + "] "@ + msg
}

/// A line of the log: the time in seconds since the epoch, and the message.
pub fn log_text(now: u64, msg: &str) -> (line: String)
    ensures
        line@ == stamped(now, msg@),
{
    let mut line = String::from_str("[");
    push_decimal(&mut line, now);
    line.append("] ");
    line.append(msg);
    line
}

/// The characters with the Unicode property `White_Space`.
pub open spec fn is_white_space(c: char) -> bool {
    let n = c as int;
    ||| 0x9 <= n <= 0xd
    ||| n == 0x20
    ||| n == 0x85
    ||| n == 0xa0
    ||| n == 0x1680
    ||| 0x2000 <= n <= 0x200a
    ||| n == 0x2028
    ||| n == 0x2029
    ||| n == 0x202f
    ||| n == 0x205f
    ||| n == 0x3000
}

/// Whether `c` has the Unicode property `White_Space`.
pub fn white_space(c: char) -> (white: bool)
    ensures
        white == is_white_space(c),
{
    let n: u32 = c as u32;
    (0x9 <= n && n <= 0xd) || n == 0x20 || n == 0x85 || n == 0xa0 || n == 0x1680 || (0x2000 <= n
        && n <= 0x200a) || n == 0x2028 || n == 0x2029 || n == 0x202f || n == 0x205f || n == 0x3000
}

/// `s` without the white space it begins with.
pub open spec fn trimmed_start(s: Seq<char>) -> Seq<char>
    decreases s.len(),
{
    if s.len() > 0 && is_white_space(s.first()) {
        trimmed_start(s.drop_first())
    } else {
        s
    }
}

/// `s` without the white space it ends with.
pub open spec fn trimmed_end(s: Seq<char>) -> Seq<char>
    decreases s.len(),
{
    if s.len() > 0 && is_white_space(s.last()) {
        trimmed_end(s.drop_last())
    } else {
        s
    }
}

/// `s` without the white space at either end.
pub open spec fn trimmed(s: Seq<char>) -> Seq<char> {
    trimmed_end(trimmed_start(s))
}

/// `s` with a space in place of every line feed.
pub open spec fn unbroken(s: Seq<char>) -> Seq<char> {
    s.map_values(
        |c: char|
            if c == '\n' {
                ' '
            } else {
                c
            },
    )
}

/// At most the first `n` characters of `s`.
pub open spec fn at_most(s: Seq<char>, n: int) -> Seq<char> {
    if s.len() <= n {
        s
    } else {
        s.take(n)
    }
}

/// The one-line form of an error message: line feeds become spaces, white space at the ends
/// goes, and of the rest the first characters stay.
pub open spec fn shortened(raw: Seq<char>) -> Seq<char> {
    at_most(trimmed(unbroken(raw)), SHORT_ERROR_CHARS as int)
}

/// The one-line form of an error message.
pub fn short_error(raw: &str) -> (short: String)
    ensures
        short@ == shortened(raw@),
{
    let source = chars_of(raw);
    let mut line: Vec<char> = Vec::new();
    let mut i: usize = 0;
    while i < source.len()
        invariant
            i <= source.len(),
            source@ == raw@,
            line@ == unbroken(raw@).take(i as int),
        decreases source.len() - i,
    {
        if source[i] == '\n' {
            line.push(' ');
        } else {
            line.push(source[i]);
        }
        assert(line@ =~= unbroken(raw@).take(i as int + 1));
        i += 1;
    }
    assert(line@ =~= unbroken(raw@));
    let mut start: usize = 0;
    assert(line@.skip(0) =~= line@);
    while start < line.len() && white_space(line[start])
        invariant
            start <= line.len(),
            trimmed_start(line@) == trimmed_start(line@.skip(start as int)),
        decreases line.len() - start,
    {
        assert(line@.skip(start as int).drop_first() =~= line@.skip(start as int + 1));
        start += 1;
    }
    let ghost body = line@.skip(start as int);
    assert(trimmed_start(line@) == body);
    let mut end: usize = line.len();
    assert(line@.subrange(start as int, end as int) =~= body);
    while start < end && white_space(line[end - 1])
        invariant
            start <= end <= line.len(),
            trimmed_end(body) == trimmed_end(line@.subrange(start as int, end as int)),
        decreases end,
    {
        assert(line@.subrange(start as int, end as int).drop_last() =~= line@.subrange(
            start as int,
            end - 1,
        ));
        end -= 1;
    }
    let ghost kept = line@.subrange(start as int, end as int);
    assert(trimmed(unbroken(raw@)) == kept);
    if end - start > SHORT_ERROR_CHARS {
        end = start + SHORT_ERROR_CHARS;
    }
    let mut short = String::new();
    let mut k: usize = start;
    while k < end
        invariant
            start <= k <= end <= line.len(),
            short@ == line@.subrange(start as int, k as int),
        decreases end - k,
    {
        short.push(line[k]);
        assert(short@ =~= line@.subrange(start as int, k as int + 1));
        k += 1;
    }
    assert(short@ =~= at_most(kept, SHORT_ERROR_CHARS as int));
    short
}

/// Text that begins with no white space stays as it is at the beginning.
proof fn trimmed_start_means(s: Seq<char>)
    ensures
        trimmed_start(s).len() > 0 ==> !is_white_space(trimmed_start(s).first()),
        trimmed_start(s).len() <= s.len(),
        forall|i: int|
            0 <= i < trimmed_start(s).len() ==> s.contains(#[trigger] trimmed_start(s)[i]),
    decreases s.len(),
{
    if s.len() > 0 && is_white_space(s.first()) {
        let rest = s.drop_first();
        trimmed_start_means(rest);
        assert forall|i: int| 0 <= i < trimmed_start(s).len() implies s.contains(
            #[trigger] trimmed_start(s)[i],
        ) by {
            assert(rest.contains(trimmed_start(rest)[i]));
            let k = choose|k: int| 0 <= k < rest.len() && rest[k] == trimmed_start(rest)[i];
            assert(s[k + 1] == rest[k]);
        }
    }
}

/// What is left of a text without the white space at its end.
proof fn trimmed_end_means(s: Seq<char>)
    ensures
        trimmed_end(s).len() <= s.len(),
        trimmed_end(s) == s.take(trimmed_end(s).len() as int),
        trimmed_end(s).len() > 0 ==> !is_white_space(trimmed_end(s).last()),
    decreases s.len(),
{
    if s.len() > 0 && is_white_space(s.last()) {
        trimmed_end_means(s.drop_last());
        assert(s.drop_last().take(trimmed_end(s).len() as int) =~= s.take(
            trimmed_end(s).len() as int,
        ));
    } else {
        assert(s.take(s.len() as int) =~= s);
    }
}

/// The short form of an error message has a bounded length and no line feed, and begins with no
/// white space.
pub proof fn short_error_is_one_short_line(raw: Seq<char>)
    ensures
        shortened(raw).len() <= SHORT_ERROR_CHARS,
        !shortened(raw).contains('\n'),
        shortened(raw).len() > 0 ==> !is_white_space(shortened(raw).first()),
{
    let line = unbroken(raw);
    let body = trimmed_start(line);
    let short = shortened(raw);
    trimmed_start_means(line);
    trimmed_end_means(body);
    assert forall|i: int| 0 <= i < short.len() implies short[i] != '\n' by {
        assert(short[i] == body[i]);
        assert(line.contains(body[i]));
        let k = choose|k: int| 0 <= k < line.len() && line[k] == body[i];
        assert(line[k] != '\n');
    }
    if short.len() > 0 {
        assert(short[0] == body[0]);
    }
}

/// An error message that is one short line already, without white space at the ends, is its own
/// short form.
pub proof fn short_line_is_kept(raw: Seq<char>)
    requires
        raw.len() <= SHORT_ERROR_CHARS,
        !raw.contains('\n'),
        raw.len() > 0 ==> !is_white_space(raw.first()) && !is_white_space(raw.last()),
    ensures
        shortened(raw) == raw,
{
    assert forall|i: int| 0 <= i < raw.len() implies raw[i] != '\n' by {
        assert(raw.contains(raw[i]));
    }
    assert(unbroken(raw) =~= raw);
}

} // verus!
