//! Texts in lexicographic order, and the ascending listing of a set of texts.

use vstd::prelude::*;

use crate::text::chars_of;

verus! {

/// Whether `a` comes strictly before `b` in lexicographic order of code points.
pub open spec fn before(a: Seq<char>, b: Seq<char>) -> bool
    decreases a.len(),
{
    if a.len() == 0 || b.len() == 0 {
        a.len() < b.len()
    } else if a[0] == b[0] {
        before(a.drop_first(), b.drop_first())
    } else {
        (a[0] as int) < (b[0] as int)
    }
}

/// No text comes before itself.
pub proof fn before_is_irreflexive(a: Seq<char>)
    ensures
        !before(a, a),
    decreases a.len(),
{
    if a.len() > 0 {
        before_is_irreflexive(a.drop_first());
    }
}

/// What comes before a text comes before all that follows it.
pub proof fn before_is_transitive(a: Seq<char>, b: Seq<char>, c: Seq<char>)
    requires
        before(a, b),
        before(b, c),
    ensures
        before(a, c),
    decreases a.len(),
{
    if a.len() > 0 && b.len() > 0 && c.len() > 0 && a[0] == b[0] && b[0] == c[0] {
        before_is_transitive(a.drop_first(), b.drop_first(), c.drop_first());
    }
}

/// Of two different texts, one comes before the other.
pub proof fn before_is_total(a: Seq<char>, b: Seq<char>)
    ensures
        a == b || before(a, b) || before(b, a),
    decreases a.len(),
{
    if a.len() == 0 || b.len() == 0 {
        if a.len() == b.len() {
            assert(a =~= b);
        }
    } else if a[0] == b[0] {
        before_is_total(a.drop_first(), b.drop_first());
        if a.drop_first() == b.drop_first() {
            assert(a =~= seq![a[0]] + a.drop_first());
            assert(b =~= seq![b[0]] + b.drop_first());
        }
    }
}

/// Whether every text in `names` comes strictly before those that follow it.
pub open spec fn ascending(names: Seq<Seq<char>>) -> bool {
    forall|i: int, j: int| 0 <= i < j < names.len() ==> before(#[trigger] names[i], #[trigger] names[j])
}

/// Whether `names` holds the texts of `all`, each once, in ascending order.
pub open spec fn is_listing(names: Seq<Seq<char>>, all: Set<Seq<char>>) -> bool {
    &&& ascending(names)
    &&& forall|name: Seq<char>| #[trigger] names.contains(name) <==> all.contains(name)
}

/// The ascending listing of a finite set of texts.
pub open spec fn listing(all: Set<Seq<char>>) -> Seq<Seq<char>> {
    choose|names: Seq<Seq<char>>| is_listing(names, all)
}

/// A set has at most one ascending listing.
pub proof fn listing_is_unique(x: Seq<Seq<char>>, y: Seq<Seq<char>>, all: Set<Seq<char>>)
    requires
        is_listing(x, all),
        is_listing(y, all),
    ensures
        x == y,
    decreases x.len(),
{
    if x.len() == 0 {
        if y.len() > 0 {
            assert(x.contains(y[0]) <==> all.contains(y[0]));
            assert(y.contains(y[0]));
        }
        assert(x =~= y);
    } else {
        assert(x.contains(x.last()) && y.contains(x.last()));
        let top = x.last();
        let peak = y.last();
        assert(y.contains(peak) && x.contains(peak));
        let i = choose|i: int| 0 <= i < y.len() && y[i] == top;
        let j = choose|j: int| 0 <= j < x.len() && x[j] == peak;
        if top != peak {
            assert(before(y[i], y[y.len() - 1]));
            assert(before(x[j], x[x.len() - 1]));
            before_is_transitive(top, peak, top);
            before_is_irreflexive(top);
        }
        let rest = all.remove(top);
        rest_is_listing(x, all);
        rest_is_listing(y, all);
        listing_is_unique(x.drop_last(), y.drop_last(), rest);
        assert(x =~= x.drop_last().push(top));
        assert(y =~= y.drop_last().push(top));
    }
}

/// A listing without its last text lists the set without that text.
proof fn rest_is_listing(x: Seq<Seq<char>>, all: Set<Seq<char>>)
    requires
        is_listing(x, all),
        x.len() > 0,
    ensures
        is_listing(x.drop_last(), all.remove(x.last())),
{
    let rest = x.drop_last();
    assert forall|name: Seq<char>| #[trigger] rest.contains(name) <==> all.remove(x.last()).contains(
        name,
    ) by {
        if rest.contains(name) {
            let i = choose|i: int| 0 <= i < rest.len() && rest[i] == name;
            assert(x[i] == name);
            assert(x.contains(name));
            assert(before(x[i], x[x.len() - 1]));
            before_is_irreflexive(name);
        }
        if all.remove(x.last()).contains(name) {
            assert(x.contains(name));
            let i = choose|i: int| 0 <= i < x.len() && x[i] == name;
            assert(rest[i] == name);
        }
    }
}

/// What is a listing of `all` is the one that [`listing`] names.
pub proof fn listing_is_the_listing(names: Seq<Seq<char>>, all: Set<Seq<char>>)
    requires
        is_listing(names, all),
    ensures
        names == listing(all),
{
    listing_is_unique(names, listing(all), all);
}

/// No text occurs twice in an ascending sequence.
pub proof fn ascending_has_no_duplicates(names: Seq<Seq<char>>)
    requires
        ascending(names),
    ensures
        names.no_duplicates(),
{
    assert forall|i: int, j: int| 0 <= i < names.len() && 0 <= j < names.len() && i != j implies names[i]
        != names[j] by {
        before_is_irreflexive(names[i]);
        if i < j {
            assert(before(names[i], names[j]));
        } else {
            assert(before(names[j], names[i]));
        }
    }
}

/// Whether the code point of `p` is less than that of `q`.
fn code_before(p: char, q: char) -> (less: bool)
    ensures
        less == ((p as int) < (q as int)),
{
    (p as u32) < (q as u32)
}

/// Whether `a` comes strictly before `b` in lexicographic order of code points.
pub fn text_before(a: &str, b: &str) -> (less: bool)
    ensures
        less == before(a@, b@),
{
    let x = chars_of(a);
    let y = chars_of(b);
    let mut i: usize = 0;
    assert(x@.skip(0) =~= a@ && y@.skip(0) =~= b@);
    while i < x.len() && i < y.len()
        invariant
            i <= x.len(),
            i <= y.len(),
            before(a@, b@) == before(x@.skip(i as int), y@.skip(i as int)),
        decreases x.len() - i,
    {
        if x[i] != y[i] {
            return code_before(x[i], y[i]);
        }
        assert(x@.skip(i as int).drop_first() =~= x@.skip(i as int + 1));
        assert(y@.skip(i as int).drop_first() =~= y@.skip(i as int + 1));
        i += 1;
    }
    x.len() < y.len()
}

/// Adds `name` to an ascending sequence at its place, unless it is there already.
pub fn insert_ascending(names: &mut Vec<String>, name: &String)
    requires
        ascending(old(names).deep_view()),
    ensures
        ascending(final(names).deep_view()),
        forall|other: Seq<char>| #[trigger]
            final(names).deep_view().contains(other) <==> old(names).deep_view().contains(other)
                || other == name@,
{
    let ghost was = names.deep_view();
    let mut at: usize = 0;
    while at < names.len() && text_before(names[at].as_str(), name.as_str())
        invariant
            at <= names.len(),
            names.deep_view() == was,
            forall|i: int| 0 <= i < at ==> before(#[trigger] was[i], name@),
        decreases names.len() - at,
    {
        assert(was[at as int] == names@[at as int]@);
        at += 1;
    }
    if at < names.len() && names[at] == *name {
        proof {
            assert(was[at as int] == name@);
            assert(was.contains(name@));
        }
        return;
    }
    proof {
        if at < was.len() {
            assert(was[at as int] == names@[at as int]@);
            before_is_total(was[at as int], name@);
            assert forall|j: int| at <= j < was.len() implies before(name@, #[trigger] was[j]) by {
                if at < j {
                    before_is_transitive(name@, was[at as int], was[j]);
                }
            }
        }
    }
    names.insert(at, name.clone());
    proof {
        let now = names.deep_view();
        assert(now =~= was.insert(at as int, name@));
        assert forall|other: Seq<char>| #[trigger] now.contains(other) <==> was.contains(other)
            || other == name@ by {
            if now.contains(other) {
                let i = choose|i: int| 0 <= i < now.len() && now[i] == other;
                if i < at {
                    assert(was[i] == other);
                } else if i > at {
                    assert(was[i - 1] == other);
                }
            }
            if was.contains(other) {
                let i = choose|i: int| 0 <= i < was.len() && was[i] == other;
                assert(now[if i < at {
                    i
                } else {
                    i + 1
                }] == other);
            }
            if other == name@ {
                assert(now[at as int] == name@);
            }
        }
    }
}

} // verus!
