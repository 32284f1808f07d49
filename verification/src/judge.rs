//! Which watched models count as up: failures are counted in a row, and a model counts as down
//! once it has failed often enough.

use vstd::hash_map::StringHashMap;
use vstd::prelude::*;

use crate::status::{filter_step, ModelStatus, ModelStatusView};
use crate::text::{decimal, join, joined, push_decimal};

verus! {

/// Failures in a row, by model, as numbers without a limit.
pub open spec fn counts(streaks: Map<Seq<char>, u32>) -> Map<Seq<char>, nat> {
    streaks.map_values(|n: u32| n as nat)
}

/// How often `model` has failed in a row so far.
pub open spec fn streak_of(streaks: Map<Seq<char>, nat>, model: Seq<char>) -> nat {
    if streaks.contains_key(model) {
        streaks[model]
    } else {
        0
    }
}

/// How often a model has failed in a row once `status` is seen.
pub open spec fn next_streak(streaks: Map<Seq<char>, nat>, status: ModelStatusView) -> nat {
    if status.ok {
        0
    } else {
        streak_of(streaks, status.model) + 1
    }
}

/// The failures in a row once every status in `shown` is seen.
pub open spec fn streaks_after(streaks: Map<Seq<char>, nat>, shown: Seq<ModelStatusView>) -> Map<
    Seq<char>,
    nat,
>
    decreases shown.len(),
{
    if shown.len() == 0 {
        streaks
    } else {
        streaks_after(streaks, shown.drop_last()).insert(
            shown.last().model,
            next_streak(streaks, shown.last()),
        )
    }
}

/// Whether a model counts as up once `status` is seen: it is up, or has failed fewer than
/// `threshold` times in a row.
pub open spec fn counts_as_up(
    streaks: Map<Seq<char>, nat>,
    threshold: nat,
    status: ModelStatusView,
) -> bool {
    status.ok || next_streak(streaks, status) < threshold
}

/// The models that count as down.
pub open spec fn is_down(streaks: Map<Seq<char>, nat>, threshold: nat) -> spec_fn(
    ModelStatusView,
) -> bool {
    |status: ModelStatusView| !counts_as_up(streaks, threshold, status)
}

/// The models that count as down by the very failure that is seen now.
pub open spec fn goes_down(streaks: Map<Seq<char>, nat>, threshold: nat) -> spec_fn(
    ModelStatusView,
) -> bool {
    |status: ModelStatusView|
        !counts_as_up(streaks, threshold, status) && next_streak(streaks, status) == threshold
}

/// For each model shown, whether it counts as up.
pub open spec fn verdicts(
    streaks: Map<Seq<char>, nat>,
    threshold: nat,
    shown: Seq<ModelStatusView>,
) -> Map<Seq<char>, bool>
    decreases shown.len(),
{
    if shown.len() == 0 {
        Map::empty()
    } else {
        verdicts(streaks, threshold, shown.drop_last()).insert(
            shown.last().model,
            counts_as_up(streaks, threshold, shown.last()),
        )
    }
}

/// Whether something is shown and all of it counts as up.
pub open spec fn all_up(
    streaks: Map<Seq<char>, nat>,
    threshold: nat,
    shown: Seq<ModelStatusView>,
) -> bool {
    &&& shown.len() > 0
    &&& forall|i: int|
        0 <= i < shown.len() ==> counts_as_up(streaks, threshold, #[trigger] shown[i])
}

/// What was last said of `model`; that it was up, where nothing was said.
pub open spec fn was_up(last_ok: Map<Seq<char>, bool>, model: Seq<char>) -> bool {
    last_ok.contains_key(model) ==> last_ok[model]
}

/// Whether something was said last time, and none of what is shown was said to be down.
pub open spec fn all_were_up(
    last_ok: Map<Seq<char>, bool>,
    shown: Seq<ModelStatusView>,
) -> bool {
    &&& !last_ok.is_empty()
    &&& forall|i: int| 0 <= i < shown.len() ==> was_up(last_ok, (#[trigger] shown[i]).model)
}

/// How a model that is down is listed: by name, and with its error where there is one.
pub open spec fn down_line(status: ModelStatusView) -> Seq<char> {
    match status.error {
        Some(error) => if error.len() == 0 {
            status.model
        } else {
            status.model + ": "@ + error
        },
        None => status.model,
    }
}

/// How the models that are down are listed.
pub open spec fn down_lines(
    streaks: Map<Seq<char>, nat>,
    threshold: nat,
    shown: Seq<ModelStatusView>,
) -> Seq<Seq<char>> {
    shown.filter(is_down(streaks, threshold)).map_values(
        |status: ModelStatusView| down_line(status),
    )
}

/// The names of the models that have just gone down.
pub open spec fn newly_down(
    streaks: Map<Seq<char>, nat>,
    threshold: nat,
    shown: Seq<ModelStatusView>,
) -> Seq<Seq<char>> {
    shown.filter(goes_down(streaks, threshold)).map_values(
        |status: ModelStatusView| status.model,
    )
}

/// The text of a notification that models went down.
pub open spec fn degraded_text(lines: Seq<Seq<char>>, watched: nat) -> Seq<char> {
    decimal(lines.len()) + "/"@ + decimal(watched) + " 个模型不可用\n"@ + joined(lines, "\n"@)
}

/// The text of a notification that more models went down.
pub open spec fn more_degraded_text(names: Seq<Seq<char>>) -> Seq<char> {
    "新增故障: "@ + joined(names, ", "@)
}

/// Whether every count can go up by one where `shown` asks for it.
pub open spec fn has_room(streaks: Map<Seq<char>, nat>, shown: Seq<ModelStatusView>) -> bool {
    forall|i: int|
        0 <= i < shown.len() && !(#[trigger] shown[i]).ok ==> streak_of(streaks, shown[i].model)
            < u32::MAX
}

/// How often `model` has failed in a row so far.
fn read_streak(streaks: &StringHashMap<u32>, model: &str) -> (n: u32)
    ensures
        n == streak_of(counts(streaks@), model@),
{
    match streaks.get(model) {
        Some(n) => *n,
        None => 0,
    }
}

/// Whether every count can go up by one where `shown` asks for it.
pub fn room_for(streaks: &StringHashMap<u32>, shown: &Vec<ModelStatus>) -> (room: bool)
    ensures
        room == has_room(counts(streaks@), shown.deep_view()),
{
    let mut i: usize = 0;
    while i < shown.len()
        invariant
            i <= shown.len(),
            forall|j: int|
                0 <= j < i && !(#[trigger] shown.deep_view()[j]).ok ==> streak_of(
                    counts(streaks@),
                    shown.deep_view()[j].model,
                ) < u32::MAX,
        decreases shown.len() - i,
    {
        assert(shown.deep_view()[i as int] == shown@[i as int]@);
        if !shown[i].ok && read_streak(streaks, shown[i].model.as_str()) == u32::MAX {
            return false;
        }
        i += 1;
    }
    true
}

/// What is made of one status.
pub struct Verdict {
    /// How often the model has now failed in a row.
    pub streak: u32,
    /// Whether the model counts as up.
    pub up: bool,
}

/// Judges one status.
pub fn judge(streaks: &StringHashMap<u32>, threshold: u32, status: &ModelStatus) -> (made: Verdict)
    requires
        !status.ok ==> streak_of(counts(streaks@), status@.model) < u32::MAX,
    ensures
        made.streak == next_streak(counts(streaks@), status@),
        made.up == counts_as_up(counts(streaks@), threshold as nat, status@),
{
    if status.ok {
        Verdict { streak: 0, up: true }
    } else {
        let streak: u32 = read_streak(streaks, status.model.as_str()) + 1;
        Verdict { streak, up: streak < threshold }
    }
}

/// Whether something is shown and all of it counts as up.
pub fn none_down(streaks: &StringHashMap<u32>, threshold: u32, shown: &Vec<ModelStatus>) -> (up:
    bool)
    requires
        has_room(counts(streaks@), shown.deep_view()),
    ensures
        up == all_up(counts(streaks@), threshold as nat, shown.deep_view()),
{
    let ghost all = shown.deep_view();
    let mut i: usize = 0;
    while i < shown.len()
        invariant
            i <= shown.len(),
            all == shown.deep_view(),
            has_room(counts(streaks@), all),
            forall|j: int|
                0 <= j < i ==> counts_as_up(counts(streaks@), threshold as nat, #[trigger] all[j]),
        decreases shown.len() - i,
    {
        assert(all[i as int] == shown@[i as int]@);
        if !judge(streaks, threshold, &shown[i]).up {
            return false;
        }
        i += 1;
    }
    shown.len() > 0
}

/// Whether something was said last time, and none of what is shown was said to be down.
pub fn none_was_down(last_ok: &StringHashMap<bool>, shown: &Vec<ModelStatus>) -> (up: bool)
    ensures
        up == all_were_up(last_ok@, shown.deep_view()),
{
    if last_ok.is_empty() {
        return false;
    }
    let ghost all = shown.deep_view();
    let mut i: usize = 0;
    while i < shown.len()
        invariant
            i <= shown.len(),
            all == shown.deep_view(),
            forall|j: int| 0 <= j < i ==> was_up(last_ok@, (#[trigger] all[j]).model),
        decreases shown.len() - i,
    {
        assert(all[i as int] == shown@[i as int]@);
        let up: bool = match last_ok.get(shown[i].model.as_str()) {
            Some(up) => *up,
            None => true,
        };
        if !up {
            return false;
        }
        i += 1;
    }
    true
}

/// How a model that is down is listed: by name, and with its error where there is one.
fn line_for(status: &ModelStatus) -> (line: String)
    ensures
        line@ == down_line(status@),
{
    let mut line = status.model.clone();
    if let Some(error) = &status.error {
        if !error.as_str().is_empty() {
            line.append(": ");
            line.append(error.as_str());
        }
    }
    line
}

/// How the models that are down are listed.
pub fn list_down(streaks: &StringHashMap<u32>, threshold: u32, shown: &Vec<ModelStatus>) -> (lines:
    Vec<String>)
    requires
        has_room(counts(streaks@), shown.deep_view()),
    ensures
        lines.deep_view() == down_lines(counts(streaks@), threshold as nat, shown.deep_view()),
{
    let mut lines: Vec<String> = Vec::new();
    let ghost all = shown.deep_view();
    let ghost keep = is_down(counts(streaks@), threshold as nat);
    let ghost line = |status: ModelStatusView| down_line(status);
    proof {
        reveal(Seq::filter);
        assert(lines.deep_view() =~= all.take(0).filter(keep).map_values(line));
    }
    let mut i: usize = 0;
    while i < shown.len()
        invariant
            i <= shown.len(),
            all == shown.deep_view(),
            has_room(counts(streaks@), all),
            keep == is_down(counts(streaks@), threshold as nat),
            line == (|status: ModelStatusView| down_line(status)),
            lines.deep_view() == all.take(i as int).filter(keep).map_values(line),
        decreases shown.len() - i,
    {
        let ghost was = lines.deep_view();
        let ghost kept = all.take(i as int).filter(keep);
        proof {
            filter_step(all, keep, i as int);
            assert(all[i as int] == shown@[i as int]@);
            assert(kept.push(all[i as int]).map_values(line) =~= kept.map_values(line).push(
                down_line(all[i as int]),
            ));
        }
        if !judge(streaks, threshold, &shown[i]).up {
            lines.push(line_for(&shown[i]));
            assert(lines.deep_view() =~= was.push(down_line(all[i as int])));
        }
        i += 1;
    }
    assert(all.take(i as int) =~= all);
    lines
}

/// The names of the models that have just gone down.
pub fn list_newly_down(streaks: &StringHashMap<u32>, threshold: u32, shown: &Vec<ModelStatus>) -> (
names: Vec<String>)
    requires
        has_room(counts(streaks@), shown.deep_view()),
    ensures
        names.deep_view() == newly_down(counts(streaks@), threshold as nat, shown.deep_view()),
{
    let mut names: Vec<String> = Vec::new();
    let ghost all = shown.deep_view();
    let ghost keep = goes_down(counts(streaks@), threshold as nat);
    let ghost name = |status: ModelStatusView| status.model;
    proof {
        reveal(Seq::filter);
        assert(names.deep_view() =~= all.take(0).filter(keep).map_values(name));
    }
    let mut i: usize = 0;
    while i < shown.len()
        invariant
            i <= shown.len(),
            all == shown.deep_view(),
            has_room(counts(streaks@), all),
            keep == goes_down(counts(streaks@), threshold as nat),
            name == (|status: ModelStatusView| status.model),
            names.deep_view() == all.take(i as int).filter(keep).map_values(name),
        decreases shown.len() - i,
    {
        let ghost was = names.deep_view();
        let ghost kept = all.take(i as int).filter(keep);
        proof {
            filter_step(all, keep, i as int);
            assert(all[i as int] == shown@[i as int]@);
            assert(kept.push(all[i as int]).map_values(name) =~= kept.map_values(name).push(
                all[i as int].model,
            ));
        }
        let verdict = judge(streaks, threshold, &shown[i]);
        if !verdict.up && verdict.streak == threshold {
            names.push(shown[i].model.clone());
            assert(names.deep_view() =~= was.push(all[i as int].model));
        }
        i += 1;
    }
    assert(all.take(i as int) =~= all);
    names
}

/// The text of a notification that models went down.
pub fn tell_degraded(lines: &Vec<String>, watched: usize) -> (text: String)
    ensures
        text@ == degraded_text(lines.deep_view(), watched as nat),
{
    let mut text = String::new();
    push_decimal(&mut text, lines.len() as u64);
    text.append("/");
    push_decimal(&mut text, watched as u64);
    text.append(" 个模型不可用\n");
    text.append(join(lines, "\n").as_str());
    assert(text@ =~= degraded_text(lines.deep_view(), watched as nat));
    text
}

/// The text of a notification that more models went down.
pub fn tell_more_degraded(names: &Vec<String>) -> (text: String)
    ensures
        text@ == more_degraded_text(names.deep_view()),
{
    let mut text = String::new();
    text.append("新增故障: ");
    text.append(join(names, ", ").as_str());
    assert(text@ =~= more_degraded_text(names.deep_view()));
    text
}

/// Takes every status shown into account: the failures in a row go up or back to zero, and what
/// is said of the models is replaced by what now holds of those shown.
pub fn record(
    streaks: &mut StringHashMap<u32>,
    last_ok: &mut StringHashMap<bool>,
    threshold: u32,
    shown: &Vec<ModelStatus>,
)
    requires
        has_room(counts(old(streaks)@), shown.deep_view()),
    ensures
        counts(final(streaks)@) == streaks_after(counts(old(streaks)@), shown.deep_view()),
        final(last_ok)@ == verdicts(
            counts(old(streaks)@),
            threshold as nat,
            shown.deep_view(),
        ),
{
    let ghost all = shown.deep_view();
    let ghost base = counts(streaks@);
    let mut made: Vec<Verdict> = Vec::new();
    let mut i: usize = 0;
    while i < shown.len()
        invariant
            i <= shown.len(),
            all == shown.deep_view(),
            base == counts(streaks@),
            has_room(base, all),
            made.len() == i,
            forall|j: int|
                0 <= j < i ==> (#[trigger] made@[j]).streak == next_streak(base, all[j])
                    && made@[j].up == counts_as_up(base, threshold as nat, all[j]),
        decreases shown.len() - i,
    {
        assert(all[i as int] == shown@[i as int]@);
        made.push(judge(streaks, threshold, &shown[i]));
        i += 1;
    }
    last_ok.clear();
    let mut k: usize = 0;
    while k < shown.len()
        invariant
            k <= shown.len(),
            all == shown.deep_view(),
            made.len() == shown.len(),
            forall|j: int|
                0 <= j < shown.len() ==> (#[trigger] made@[j]).streak == next_streak(base, all[j])
                    && made@[j].up == counts_as_up(base, threshold as nat, all[j]),
            counts(streaks@) == streaks_after(base, all.take(k as int)),
            last_ok@ == verdicts(base, threshold as nat, all.take(k as int)),
        decreases shown.len() - k,
    {
        let ghost was = streaks@;
        proof {
            assert(all[k as int] == shown@[k as int]@);
            assert(all.take(k as int + 1).drop_last() =~= all.take(k as int));
        }
        streaks.insert(shown[k].model.clone(), made[k].streak);
        last_ok.insert(shown[k].model.clone(), made[k].up);
        assert(counts(streaks@) =~= counts(was).insert(
            all[k as int].model,
            next_streak(base, all[k as int]),
        ));
        k += 1;
    }
    assert(all.take(k as int) =~= all);
}

} // verus!
