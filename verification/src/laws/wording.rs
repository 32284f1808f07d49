//! What holds of the texts: numbers, lists, short errors, log lines, and the order of names.

use vstd::prelude::*;

use crate::fetch::{fetch_next, reason_phrase, FetchEventView, FetchNextView};
use crate::order::before;
use crate::text::{
    decimal, is_white_space, joined, shortened, stamped, trimmed_end, trimmed_start, unbroken,
};
use crate::window::{command_of, MenuCommand};

verus! {

/// The number that a sequence of decimal digits stands for.
pub open spec fn value_of(digits: Seq<char>) -> int
    decreases digits.len(),
{
    if digits.len() == 0 {
        0
    } else {
        value_of(digits.drop_last()) * 10 + (digits.last() as int - '0' as int)
    }
}

/// A number in decimal reads back as that number, is made of digits alone, and has no leading
/// zero unless it is zero.
pub proof fn decimal_reads_back(n: nat)
    ensures
        value_of(decimal(n)) == n,
        decimal(n).len() > 0,
        forall|i: int| 0 <= i < decimal(n).len() ==> '0' as int <= (#[trigger] decimal(n)[i]) as int
            && decimal(n)[i] as int <= '9' as int,
        decimal(n)[0] == '0' ==> n == 0 && decimal(n).len() == 1,
    decreases n,
{
    let d = decimal(n);
    if n < 10 {
        assert(d.drop_last() =~= Seq::empty());
        assert(value_of(Seq::<char>::empty()) == 0);
        assert(d.last() as int == 48 + n);
    } else {
        decimal_reads_back(n / 10);
        let head = decimal(n / 10);
        assert(d.drop_last() =~= head);
        assert(d.last() as int == 48 + n % 10);
        assert(n == (n / 10) * 10 + n % 10);
        assert forall|i: int| 0 <= i < d.len() implies '0' as int <= (#[trigger] d[i]) as int
            && d[i] as int <= '9' as int by {
            if i < head.len() {
                assert(d[i] == head[i]);
            }
        }
        assert(d[0] == head[0]);
    }
}

/// Nothing joined is nothing, one part joined is that part, and two lists joined one after the
/// other have the separator between them.
pub proof fn joining_goes_part_by_part(a: Seq<Seq<char>>, b: Seq<Seq<char>>, sep: Seq<char>)
    ensures
        joined(Seq::empty(), sep) == Seq::<char>::empty(),
        a.len() == 1 ==> joined(a, sep) == a[0],
        a.len() > 0 && b.len() > 0 ==> joined(a + b, sep) == joined(a, sep) + sep + joined(b, sep),
    decreases b.len(),
{
    if a.len() > 0 && b.len() > 0 {
        let all = a + b;
        assert(all.last() == b.last());
        if b.len() == 1 {
            assert(all.drop_last() =~= a);
        } else {
            joining_goes_part_by_part(a, b.drop_last(), sep);
            assert(all.drop_last() =~= a + b.drop_last());
            assert(joined(all, sep) =~= joined(a, sep) + sep + joined(b, sep));
        }
    }
}

/// White space is this list of characters, and no other.
pub proof fn white_space_is_this_list(c: char)
    ensures
        is_white_space(c) <==> seq![
            '\t', '\n', '\u{b}', '\u{c}', '\r', ' ', '\u{85}', '\u{a0}', '\u{1680}', '\u{2000}',
            '\u{2001}', '\u{2002}', '\u{2003}', '\u{2004}', '\u{2005}', '\u{2006}', '\u{2007}',
            '\u{2008}', '\u{2009}', '\u{200a}', '\u{2028}', '\u{2029}', '\u{202f}', '\u{205f}',
            '\u{3000}',
        ].contains(c),
{
    let list = seq![
        '\t', '\n', '\u{b}', '\u{c}', '\r', ' ', '\u{85}', '\u{a0}', '\u{1680}', '\u{2000}',
        '\u{2001}', '\u{2002}', '\u{2003}', '\u{2004}', '\u{2005}', '\u{2006}', '\u{2007}',
        '\u{2008}', '\u{2009}', '\u{200a}', '\u{2028}', '\u{2029}', '\u{202f}', '\u{205f}',
        '\u{3000}',
    ];
    let n = c as int;
    if is_white_space(c) {
        let at: int = if n <= 0xd {
            n - 9
        } else if n == 0x20 {
            5
        } else if n == 0x85 {
            6
        } else if n == 0xa0 {
            7
        } else if n == 0x1680 {
            8
        } else if n <= 0x200a {
            n - 0x2000 + 9
        } else if n == 0x2028 {
            20
        } else if n == 0x2029 {
            21
        } else if n == 0x202f {
            22
        } else if n == 0x205f {
            23
        } else {
            24
        };
        assert(list[at] as int == n);
        assert(list[at] == c);
    }
}

/// Where the white space at the beginning of a text ends.
proof fn start_of_text(s: Seq<char>) -> (start: int)
    ensures
        0 <= start <= s.len(),
        trimmed_start(s) == s.skip(start),
        forall|k: int| 0 <= k < start ==> is_white_space(#[trigger] s[k]),
        start < s.len() ==> !is_white_space(s[start]),
    decreases s.len(),
{
    if s.len() > 0 && is_white_space(s.first()) {
        let rest = s.drop_first();
        let start = start_of_text(rest);
        assert(rest.skip(start) =~= s.skip(start + 1));
        assert forall|k: int| 0 <= k < start + 1 implies is_white_space(#[trigger] s[k]) by {
            if k > 0 {
                assert(s[k] == rest[k - 1]);
            }
        }
        start + 1
    } else {
        assert(s.skip(0) =~= s);
        0
    }
}

/// Where the white space at the end of a text begins.
proof fn end_of_text(s: Seq<char>) -> (end: int)
    ensures
        0 <= end <= s.len(),
        trimmed_end(s) == s.take(end),
        forall|k: int| end <= k < s.len() ==> is_white_space(#[trigger] s[k]),
        end > 0 ==> !is_white_space(s[end - 1]),
    decreases s.len(),
{
    if s.len() > 0 && is_white_space(s.last()) {
        let rest = s.drop_last();
        let end = end_of_text(rest);
        assert(rest.take(end) =~= s.take(end));
        assert forall|k: int| end <= k < s.len() implies is_white_space(#[trigger] s[k]) by {
            if k < rest.len() {
                assert(s[k] == rest[k]);
            }
        }
        if end > 0 {
            assert(s[end - 1] == rest[end - 1]);
        }
        end
    } else {
        assert(s.take(s.len() as int) =~= s);
        s.len() as int
    }
}

/// Whether `raw[start..end]` is what stands between the white space at the ends of `raw`, and
/// `short` is its first characters, at most 90, with a space for every line feed.
pub open spec fn is_short_form(short: Seq<char>, raw: Seq<char>, start: int, end: int) -> bool {
    &&& 0 <= start <= end <= raw.len()
    &&& forall|k: int|
        0 <= k < start || end <= k < raw.len() ==> is_white_space(#[trigger] raw[k])
    &&& start < end ==> !is_white_space(raw[start]) && !is_white_space(raw[end - 1])
    &&& short.len() == (if end - start < 90 {
        end - start
    } else {
        90
    })
    &&& forall|k: int|
        0 <= k < short.len() ==> #[trigger] short[k] == (if raw[start + k] == '\n' {
            ' '
        } else {
            raw[start + k]
        })
}

/// Whether `short` is the short form of `raw`.
pub open spec fn is_short_of(short: Seq<char>, raw: Seq<char>) -> bool {
    exists|start: int, end: int| is_short_form(short, raw, start, end)
}

/// The short form of an error message is the message between the white space at its ends, cut
/// off after 90 characters, with a space for every line feed.
pub proof fn short_error_is_the_middle(raw: Seq<char>)
    ensures
        is_short_of(shortened(raw), raw),
{
    let line = unbroken(raw);
    assert forall|k: int| 0 <= k < raw.len() implies is_white_space(#[trigger] raw[k])
        == is_white_space(line[k]) by {}
    let start = start_of_text(line);
    let body = line.skip(start);
    let len = end_of_text(body);
    let end = start + len;
    let short = shortened(raw);
    if len == 0 {
        // Nothing but white space: the text ends where it begins.
        if start < line.len() {
            assert(is_white_space(body[0]));
            assert(body[0] == line[start]);
        }
    }
    assert forall|k: int| 0 <= k < start || end <= k < raw.len() implies is_white_space(
        #[trigger] raw[k],
    ) by {
        assert(is_white_space(raw[k]) == is_white_space(line[k]));
        if k >= end {
            assert(is_white_space(body[k - start]));
        }
    }
    if start < end {
        assert(is_white_space(raw[start]) == is_white_space(line[start]));
        assert(is_white_space(raw[end - 1]) == is_white_space(line[end - 1]));
        assert(body[len - 1] == line[end - 1]);
    }
    assert forall|k: int| 0 <= k < short.len() implies #[trigger] short[k] == (if raw[start + k]
        == '\n' {
        ' '
    } else {
        raw[start + k]
    }) by {
        assert(short[k] == body[k]);
        assert(body[k] == line[start + k]);
    }
    assert(is_short_form(short, raw, start, end));
}

/// A line of the log is its time in brackets, a space and its message.
pub proof fn log_line_gives_its_time(now: u64, msg: Seq<char>)
    ensures
        stamped(now, msg) == seq!['['] + decimal(now as nat) + seq![']', ' '] + msg,
{
    reveal_strlit("[");
    reveal_strlit("] ");
    assert("["@ =~= seq!['[']);
    assert("] "@ =~= seq![']', ' ']);
}

/// Whether `a` and `b` are the same up to `k`, and there `a` ends or has the smaller code point.
pub open spec fn differ_at(a: Seq<char>, b: Seq<char>, k: int) -> bool {
    &&& 0 <= k <= a.len()
    &&& k < b.len()
    &&& forall|i: int| 0 <= i < k ==> #[trigger] a[i] == b[i]
    &&& k < a.len() ==> (a[k] as int) < (b[k] as int)
}

/// Whether `a` comes before `b` by where they first differ.
pub open spec fn precedes(a: Seq<char>, b: Seq<char>) -> bool {
    exists|k: int| differ_at(a, b, k)
}

/// The order of names goes by where two names first differ: there the one ends, or has the
/// smaller code point.
pub proof fn order_goes_by_the_first_difference(a: Seq<char>, b: Seq<char>)
    ensures
        before(a, b) <==> precedes(a, b),
    decreases a.len(),
{
    if a.len() == 0 || b.len() == 0 {
        if a.len() < b.len() {
            assert(differ_at(a, b, 0));
        }
    } else if a[0] != b[0] {
        if before(a, b) {
            assert(differ_at(a, b, 0));
        }
        if precedes(a, b) {
            let k = choose|k: int| differ_at(a, b, k);
            assert(k == 0);
        }
    } else {
        let x = a.drop_first();
        let y = b.drop_first();
        order_goes_by_the_first_difference(x, y);
        if precedes(x, y) {
            let k = choose|k: int| differ_at(x, y, k);
            assert forall|i: int| 0 <= i < k + 1 implies #[trigger] a[i] == b[i] by {
                if i > 0 {
                    assert(x[i - 1] == y[i - 1]);
                }
            }
            assert(differ_at(a, b, k + 1));
        }
        if precedes(a, b) {
            let k = choose|k: int| differ_at(a, b, k);
            assert(k > 0);
            assert forall|i: int| 0 <= i < k - 1 implies #[trigger] x[i] == y[i] by {
                assert(a[i + 1] == b[i + 1]);
            }
            assert(differ_at(x, y, k - 1));
        }
    }
}

/// A fetch brings a report exactly if one was decoded, and then that very report; an answer is
/// decoded exactly if its code is in 200..=299.
pub proof fn only_a_decoded_answer_brings_a_report(event: FetchEventView)
    ensures
        fetch_next(event) == FetchNextView::Decode <==> (event matches FetchEventView::Answered(
            code,
        ) && 200 <= code < 300),
        fetch_next(event) matches FetchNextView::Finished(Ok(raw)) ==> event
            == FetchEventView::Decoded(raw),
        event matches FetchEventView::Decoded(raw) ==> fetch_next(event)
            == FetchNextView::Finished(Ok(raw)),
{
}

/// The message of a failed fetch holds the error that made it fail, unchanged: alone, or after a
/// mark that the network failed. That of an answer that is no success holds the code.
pub proof fn failed_fetch_says_why(event: FetchEventView, error: Seq<char>, code: u16)
    ensures
        event == FetchEventView::ClientFailed(error) || event == FetchEventView::DecodeFailed(error)
            ==> fetch_next(event) == FetchNextView::Finished(Err(error)),
        event == FetchEventView::SendFailed(error) ==> fetch_next(event)
            == FetchNextView::Finished(Err("网络错误: "@ + error)),
        event == FetchEventView::Answered(code) && !(200 <= code < 300) ==> fetch_next(event)
            == FetchNextView::Finished(
            Err("HTTP "@ + (decimal(code as nat) + " "@ + reason_phrase(code))),
        ),
{
}

/// Each menu entry has its own command, and no other name has one.
pub proof fn menu_entries_have_their_commands(id: Seq<char>)
    ensures
        command_of(id) == MenuCommand::OpenMain <==> id == "open"@,
        command_of(id) == MenuCommand::CheckNow <==> id == "check"@,
        command_of(id) == MenuCommand::ToggleHud <==> id == "hud"@,
{
    reveal_strlit("open");
    reveal_strlit("check");
    reveal_strlit("hud");
    assert("open"@.len() == 4 && "check"@.len() == 5 && "hud"@.len() == 3);
}

} // verus!
