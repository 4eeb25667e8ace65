//! One cycle of the daemon's main loop: the outputs of the status scripts
//! are collected by script name, then turned into what the daemon shows.

use vstd::prelude::*;
use crate::command::{lemma_run_outcome, run_outcome, success_output, CommandRun, MandwmCommand};
use crate::error::{MandwmError, MandwmErrorLevel};

verus! {

/// The latest output of one status script.
pub struct BarEntry {
    pub name: String,
    pub output: String,
}

/// What the daemon does with a finished cycle.
pub enum BarAction {
    /// Print these script outputs on standard output, one per line, in
    /// place of setting the root window.
    PrintOutputs(Vec<String>),
    /// Store this text as the name of the X root window, where dwm shows it.
    SetRoot(String),
}

/// Whether no script name occurs twice in `entries`.
pub open spec fn names_distinct(entries: Seq<BarEntry>) -> bool {
    forall|i: int, j: int|
        0 <= i < entries.len() && 0 <= j < entries.len() && i != j
            ==> #[trigger] entries[i].name@ != #[trigger] entries[j].name@
}

/// Whether some entry has the script name `name`.
pub open spec fn has_name(entries: Seq<BarEntry>, name: Seq<char>) -> bool {
    exists|i: int| 0 <= i < entries.len() && (#[trigger] entries[i]).name@ == name
}

/// The position of the entry named `name`, where there is one.
pub open spec fn position_of(entries: Seq<BarEntry>, name: Seq<char>) -> int {
    choose|i: int| 0 <= i < entries.len() && (#[trigger] entries[i]).name@ == name
}

/// The latest output recorded for the script `name`, if any.
pub open spec fn output_of(entries: Seq<BarEntry>, name: Seq<char>) -> Option<Seq<char>> {
    if has_name(entries, name) {
        Some(entries[position_of(entries, name)].output@)
    } else {
        None
    }
}

/// The entries after the output `output` of the script `name` is recorded:
/// an entry of that name gets the new output in place, else a new entry
/// goes last.
pub open spec fn recorded(entries: Seq<BarEntry>, name: String, output: String) -> Seq<BarEntry> {
    if has_name(entries, name@) {
        let i = position_of(entries, name@);
        entries.update(i, BarEntry { name: entries[i].name, output })
    } else {
        entries.push(BarEntry { name, output })
    }
}

/// The text for the root window: the outputs in order, with `delimiter`
/// between each two of them (none before the first, none after the last).
pub open spec fn bar_text(entries: Seq<BarEntry>, delimiter: Seq<char>) -> Seq<char>
    decreases entries.len(),
{
    if entries.len() == 0 {
        Seq::empty()
    } else if entries.len() == 1 {
        entries[0].output@
    } else {
        bar_text(entries.drop_last(), delimiter) + delimiter + entries.last().output@
    }
}

/// The text for the root window, cut after `max_length` characters
/// (characters, not bytes).
pub open spec fn root_text(entries: Seq<BarEntry>, delimiter: Seq<char>, max_length: nat) -> Seq<char> {
    if bar_text(entries, delimiter).len() <= max_length {
        bar_text(entries, delimiter)
    } else {
        bar_text(entries, delimiter).take(max_length as int)
    }
}

/// The sum of the lengths of the outputs in `entries`.
pub open spec fn total_output_len(entries: Seq<BarEntry>) -> nat
    decreases entries.len(),
{
    if entries.len() == 0 {
        0
    } else {
        total_output_len(entries.drop_last()) + entries.last().output@.len()
    }
}

/// The entries as pairs of script name and output.
pub open spec fn entry_pairs(entries: Seq<BarEntry>) -> Seq<(Seq<char>, Seq<char>)> {
    entries.map_values(|e: BarEntry| (e.name@, e.output@))
}

/// Whether some pair has the script name `name`.
pub open spec fn pairs_have_name(pairs: Seq<(Seq<char>, Seq<char>)>, name: Seq<char>) -> bool {
    exists|i: int| 0 <= i < pairs.len() && (#[trigger] pairs[i]).0 == name
}

/// The position of the pair named `name`, where there is one.
pub open spec fn pairs_position(pairs: Seq<(Seq<char>, Seq<char>)>, name: Seq<char>) -> int {
    choose|i: int| 0 <= i < pairs.len() && (#[trigger] pairs[i]).0 == name
}

/// The output held under the script name `name`, if any.
pub open spec fn pairs_output(pairs: Seq<(Seq<char>, Seq<char>)>, name: Seq<char>) -> Option<Seq<char>> {
    if pairs_have_name(pairs, name) {
        Some(pairs[pairs_position(pairs, name)].1)
    } else {
        None
    }
}

/// Whether no script name occurs twice among `pairs`.
pub open spec fn pair_names_distinct(pairs: Seq<(Seq<char>, Seq<char>)>) -> bool {
    forall|i: int, j: int|
        0 <= i < pairs.len() && 0 <= j < pairs.len() && i != j ==> #[trigger] pairs[i].0 != #[trigger] pairs[j].0
}

/// The pairs after the output `output` of the script `name` is recorded:
/// the pair of that name gets the new output in place, else a new pair goes
/// last.
pub open spec fn recorded_pairs(
    pairs: Seq<(Seq<char>, Seq<char>)>,
    name: Seq<char>,
    output: Seq<char>,
) -> Seq<(Seq<char>, Seq<char>)> {
    if pairs_have_name(pairs, name) {
        pairs.update(pairs_position(pairs, name), (name, output))
    } else {
        pairs.push((name, output))
    }
}

/// The name-and-output pairs that one cycle collects when `scripts` run in
/// order with outcomes `runs`: each successful output is recorded, each
/// failure is skipped.
pub open spec fn cycle_pairs(scripts: Seq<MandwmCommand>, runs: Seq<CommandRun>) -> Seq<(Seq<char>, Seq<char>)>
    decreases scripts.len(),
{
    if scripts.len() == 0 {
        Seq::empty()
    } else {
        let earlier = cycle_pairs(scripts.drop_last(), runs.drop_last());
        match run_outcome(scripts.last().name@, runs.last()) {
            Ok(output) => recorded_pairs(earlier, scripts.last().name@, output),
            Err(_) => earlier,
        }
    }
}

/// The failures of one cycle, in order: the script's name, the warning's
/// message and its level.
pub open spec fn cycle_failures(scripts: Seq<MandwmCommand>, runs: Seq<CommandRun>) -> Seq<(Seq<char>, Seq<char>, MandwmErrorLevel)>
    decreases scripts.len(),
{
    if scripts.len() == 0 {
        Seq::empty()
    } else {
        let earlier = cycle_failures(scripts.drop_last(), runs.drop_last());
        match run_outcome(scripts.last().name@, runs.last()) {
            Ok(_) => earlier,
            Err((message, level)) => earlier.push((scripts.last().name@, message, level)),
        }
    }
}

/// Recording an output acts on the name-and-output pairs as
/// `recorded_pairs` says.
pub proof fn lemma_recorded_pairs(entries: Seq<BarEntry>, name: String, output: String)
    requires
        names_distinct(entries),
    ensures
        entry_pairs(recorded(entries, name, output)) == recorded_pairs(entry_pairs(entries), name@, output@),
{
    let pairs = entry_pairs(entries);
    if has_name(entries, name@) {
        let i = position_of(entries, name@);
        assert(pairs[i].0 == name@);
        assert(pairs_have_name(pairs, name@));
        let k = pairs_position(pairs, name@);
        assert(entries[k].name@ == name@);
        assert(k == i);
        assert(entry_pairs(recorded(entries, name, output)) =~= recorded_pairs(pairs, name@, output@));
    } else {
        if pairs_have_name(pairs, name@) {
            let k = pairs_position(pairs, name@);
            assert(entries[k].name@ == name@);
        }
        assert(entry_pairs(recorded(entries, name, output)) =~= recorded_pairs(pairs, name@, output@));
    }
}

/// Recording into distinct-named pairs: names stay distinct, the recorded
/// name holds the new output, other names keep theirs, and every pair is
/// either the recorded one or one that was there before, in its place.
proof fn lemma_recorded_pairs_contents(
    pairs: Seq<(Seq<char>, Seq<char>)>,
    name: Seq<char>,
    output: Seq<char>,
)
    requires
        pair_names_distinct(pairs),
    ensures
        pair_names_distinct(recorded_pairs(pairs, name, output)),
        pairs_output(recorded_pairs(pairs, name, output), name) == Some(output),
        forall|other: Seq<char>| other != name ==>
            #[trigger] pairs_output(recorded_pairs(pairs, name, output), other) == pairs_output(pairs, other),
        forall|k: int| 0 <= k < recorded_pairs(pairs, name, output).len() ==>
            (#[trigger] recorded_pairs(pairs, name, output)[k]).0 == name
                || (k < pairs.len() && recorded_pairs(pairs, name, output)[k] == pairs[k]),
{
    let r = recorded_pairs(pairs, name, output);
    if pairs_have_name(pairs, name) {
        let i = pairs_position(pairs, name);
        assert(r[i].0 == name);
        assert(pairs_have_name(r, name));
        assert(pairs_position(r, name) == i);
    } else {
        assert(r[pairs.len() as int].0 == name);
        assert(pairs_have_name(r, name));
        assert(pairs_position(r, name) == pairs.len());
    }
    assert forall|other: Seq<char>| other != name implies
        #[trigger] pairs_output(r, other) == pairs_output(pairs, other) by {
        if pairs_have_name(pairs, other) {
            let k = pairs_position(pairs, other);
            assert(r[k].0 == other);
            assert(pairs_have_name(r, other));
            assert(pairs_position(r, other) == k);
        }
        if pairs_have_name(r, other) {
            let k = pairs_position(r, other);
            assert(pairs[k].0 == other);
            assert(pairs_have_name(pairs, other));
        }
    }
}

/// Whether run `i` succeeded and no later run of a script of the same name
/// succeeded: its output is the one that the cycle keeps for that name.
pub open spec fn last_success(scripts: Seq<MandwmCommand>, runs: Seq<CommandRun>, i: int) -> bool {
    &&& success_output(runs[i]) is Some
    &&& forall|j: int| i < j < scripts.len() && scripts[j].name@ == scripts[i].name@
        ==> !(#[trigger] success_output(runs[j]) is Some)
}

/// Whether some run of a script named `name` succeeded.
pub open spec fn name_succeeded(scripts: Seq<MandwmCommand>, runs: Seq<CommandRun>, name: Seq<char>) -> bool {
    exists|i: int| 0 <= i < scripts.len() && (#[trigger] scripts[i]).name@ == name && success_output(runs[i]) is Some
}

/// Law: after a cycle, no name occurs twice; every script whose run was
/// the last success of its name holds that run's output (standard output
/// with exactly the newlines removed); and a name holds an output only if
/// some run of a script of that name succeeded.
pub proof fn lemma_cycle_contents(scripts: Seq<MandwmCommand>, runs: Seq<CommandRun>)
    requires
        scripts.len() == runs.len(),
    ensures
        pair_names_distinct(cycle_pairs(scripts, runs)),
        forall|i: int| 0 <= i < scripts.len() && #[trigger] last_success(scripts, runs, i) ==>
            pairs_output(cycle_pairs(scripts, runs), scripts[i].name@) == success_output(runs[i]),
        forall|k: int| 0 <= k < cycle_pairs(scripts, runs).len() ==>
            name_succeeded(scripts, runs, (#[trigger] cycle_pairs(scripts, runs)[k]).0),
    decreases scripts.len(),
{
    if scripts.len() == 0 {
        return;
    }
    let n = scripts.len() as int;
    let ps = scripts.drop_last();
    let pr = runs.drop_last();
    lemma_cycle_contents(ps, pr);
    let earlier = cycle_pairs(ps, pr);
    let name = scripts.last().name@;
    let run = runs.last();
    lemma_run_outcome(name, run);
    let pairs = cycle_pairs(scripts, runs);
    assert forall|i: int| 0 <= i < n - 1 implies #[trigger] ps[i] == scripts[i] && pr[i] == runs[i] by {}
    match run_outcome(name, run) {
        Ok(output) => {
            assert(pairs == recorded_pairs(earlier, name, output));
            lemma_recorded_pairs_contents(earlier, name, output);
            assert forall|i: int| 0 <= i < n && #[trigger] last_success(scripts, runs, i) implies
                pairs_output(pairs, scripts[i].name@) == success_output(runs[i]) by {
                if i < n - 1 {
                    assert(ps[i] == scripts[i] && pr[i] == runs[i]);
                    if scripts[i].name@ == name {
                        assert(success_output(runs[n - 1]) is Some);
                    } else {
                        assert forall|j: int| i < j < ps.len() && ps[j].name@ == ps[i].name@
                            implies !(#[trigger] success_output(pr[j]) is Some) by {
                            assert(ps[j] == scripts[j] && pr[j] == runs[j]);
                        }
                        assert(last_success(ps, pr, i));
                    }
                } else {
                    assert(runs[i] == run);
                }
            }
            assert forall|k: int| 0 <= k < pairs.len() implies
                name_succeeded(scripts, runs, (#[trigger] pairs[k]).0) by {
                if pairs[k].0 == name {
                    assert(scripts[n - 1].name@ == pairs[k].0 && success_output(runs[n - 1]) is Some);
                } else {
                    assert(k < earlier.len() && pairs[k] == earlier[k]);
                    assert(name_succeeded(ps, pr, earlier[k].0));
                    let i = choose|i: int| 0 <= i < ps.len() && (#[trigger] ps[i]).name@ == earlier[k].0
                        && success_output(pr[i]) is Some;
                    assert(ps[i] == scripts[i] && pr[i] == runs[i]);
                    assert(scripts[i].name@ == pairs[k].0);
                }
            }
        },
        Err(_) => {
            assert(pairs == earlier);
            assert forall|i: int| 0 <= i < n && #[trigger] last_success(scripts, runs, i) implies
                pairs_output(pairs, scripts[i].name@) == success_output(runs[i]) by {
                if i < n - 1 {
                    assert(ps[i] == scripts[i] && pr[i] == runs[i]);
                    assert forall|j: int| i < j < ps.len() && ps[j].name@ == ps[i].name@
                        implies !(#[trigger] success_output(pr[j]) is Some) by {
                        assert(ps[j] == scripts[j] && pr[j] == runs[j]);
                    }
                    assert(last_success(ps, pr, i));
                } else {
                    assert(runs[i] == run);
                }
            }
            assert forall|k: int| 0 <= k < pairs.len() implies
                name_succeeded(scripts, runs, (#[trigger] pairs[k]).0) by {
                assert(name_succeeded(ps, pr, earlier[k].0));
                let i = choose|i: int| 0 <= i < ps.len() && (#[trigger] ps[i]).name@ == earlier[k].0
                    && success_output(pr[i]) is Some;
                assert(ps[i] == scripts[i] && pr[i] == runs[i]);
                assert(scripts[i].name@ == pairs[k].0);
            }
        },
    }
}

/// The outputs collected in one cycle of the main loop, in the order the
/// scripts first reported, each under its script's name.
///
/// This is a map from script name to output held as a list: a `HashMap`
/// would be walked in an order that changes from run to run, so the bar's
/// segments would move around; the list keeps the order in which the
/// scripts run, and its invariant that no name occurs twice keeps the map's
/// meaning (a name's new output replaces the old one).
pub struct BarCycle {
    entries: Vec<BarEntry>,
}

impl BarCycle {
    #[verifier::type_invariant]
    spec fn wf(&self) -> bool {
        names_distinct(self.entries@)
    }

    /// The collected entries, in order.
    pub closed spec fn view_entries(&self) -> Seq<BarEntry> {
        self.entries@
    }

    /// A cycle in which nothing is collected yet.
    pub fn new() -> (cycle: Self)
        ensures
            cycle.view_entries() == Seq::<BarEntry>::empty(),
    {
        BarCycle { entries: Vec::new() }
    }

    /// The collected entries, in order; no script name occurs twice.
    pub fn entries(&self) -> (entries: &Vec<BarEntry>)
        ensures
            entries@ == self.view_entries(),
            names_distinct(entries@),
    {
        proof {
            use_type_invariant(self);
        }
        &self.entries
    }

    /// Records how a run of the script `name` went: its output replaces the
    /// earlier one of that script, or is added last; a failed run changes
    /// nothing, and its error is handed back for reporting.
    pub fn record(&mut self, name: String, result: Result<String, MandwmError>) -> (failure: Option<MandwmError>)
        ensures
            match result {
                Ok(output) => final(self).view_entries() == recorded(old(self).view_entries(), name, output)
                    && failure is None,
                Err(e) => final(self).view_entries() == old(self).view_entries() && failure == Some(e),
            },
            names_distinct(old(self).view_entries()),
    {
        proof {
            use_type_invariant(&*self);
        }
        match result {
            Ok(output) => {
                let n = self.entries.len();
                let ghost start = self.entries@;
                let mut i: usize = 0;
                while i < n
                    invariant
                        n == start.len(),
                        self.entries@ == start,
                        start == old(self).entries@,
                        result matches Ok(o) && o == output,
                        names_distinct(start),
                        i <= n,
                        forall|j: int| 0 <= j < i ==> (#[trigger] start[j]).name@ != name@,
                    decreases n - i,
                {
                    if self.entries[i].name == name {
                        let entry_name = self.entries[i].name.clone();
                        proof {
                            assert(start[i as int].name@ == name@);
                            assert(has_name(start, name@));
                            assert(position_of(start, name@) == i as int);
                        }
                        let mut entries = Vec::new();
                        std::mem::swap(&mut entries, &mut self.entries);
                        entries.set(i, BarEntry { name: entry_name, output });
                        proof {
                            assert(entries@ =~= recorded(start, name, output));
                            assert forall|a: int, b: int|
                                0 <= a < entries@.len() && 0 <= b < entries@.len() && a != b
                                implies #[trigger] entries@[a].name@ != #[trigger] entries@[b].name@ by {
                                assert(entries@[a].name@ == start[a].name@);
                                assert(entries@[b].name@ == start[b].name@);
                            }
                        }
                        self.entries = entries;
                        return None;
                    }
                    i = i + 1;
                }
                proof {
                    assert(!has_name(start, name@));
                }
                let mut entries = Vec::new();
                std::mem::swap(&mut entries, &mut self.entries);
                entries.push(BarEntry { name, output });
                proof {
                    assert(entries@ =~= recorded(start, name, output));
                    assert forall|a: int, b: int|
                        0 <= a < entries@.len() && 0 <= b < entries@.len() && a != b
                        implies #[trigger] entries@[a].name@ != #[trigger] entries@[b].name@ by {
                        if a < n && b < n {
                            assert(entries@[a] == start[a]);
                            assert(entries@[b] == start[b]);
                        } else if a < n {
                            assert(entries@[a] == start[a]);
                        } else {
                            assert(entries@[b] == start[b]);
                        }
                    }
                }
                self.entries = entries;
                None
            },
            Err(e) => Some(e),
        }
    }

    /// What the daemon does at the end of the cycle: with `use_stdout`,
    /// print the outputs of the scripts that reported; else set the root
    /// window to those outputs joined by `delimiter`, at most `max_length`
    /// characters of it.
    pub fn render(&self, use_stdout: bool, delimiter: &str, max_length: usize) -> (action: BarAction)
        ensures
            match action {
                BarAction::PrintOutputs(outputs) => use_stdout
                    && outputs@.len() == self.view_entries().len()
                    && forall|j: int| 0 <= j < outputs@.len() ==> #[trigger] outputs@[j] == self.view_entries()[j].output,
                BarAction::SetRoot(text) => !use_stdout
                    && text@ == root_text(self.view_entries(), delimiter@, max_length as nat)
                    && (bar_text(self.view_entries(), delimiter@).len() <= max_length
                        ==> text@ == bar_text(self.view_entries(), delimiter@))
                    && (bar_text(self.view_entries(), delimiter@).len() > max_length
                        ==> text@.len() == max_length
                            && text@ == bar_text(self.view_entries(), delimiter@).take(max_length as int)),
            },
    {
        let n = self.entries.len();
        if use_stdout {
            let mut outputs: Vec<String> = Vec::new();
            let mut i: usize = 0;
            while i < n
                invariant
                    n == self.entries@.len(),
                    i <= n,
                    outputs@.len() == i,
                    forall|j: int| 0 <= j < i ==> #[trigger] outputs@[j] == self.entries@[j].output,
                decreases n - i,
            {
                outputs.push(self.entries[i].output.clone());
                i = i + 1;
            }
            BarAction::PrintOutputs(outputs)
        } else {
            let mut text = String::new();
            let mut i: usize = 0;
            while i < n
                invariant
                    n == self.entries@.len(),
                    i <= n,
                    text@ == bar_text(self.entries@.subrange(0, i as int), delimiter@),
                decreases n - i,
            {
                proof {
                    assert(self.entries@.subrange(0, i + 1).drop_last() =~= self.entries@.subrange(0, i as int));
                    assert(self.entries@.subrange(0, i + 1).last() == self.entries@[i as int]);
                }
                if i > 0 {
                    text.append(delimiter);
                }
                text.append(self.entries[i].output.as_str());
                i = i + 1;
            }
            proof {
                assert(self.entries@.subrange(0, n as int) =~= self.entries@);
            }
            let len = text.as_str().unicode_len();
            if len <= max_length {
                BarAction::SetRoot(text)
            } else {
                BarAction::SetRoot(text.as_str().substring_char(0, max_length).to_owned())
            }
        }
    }
}

/// One cycle of the main loop over the script outcomes: the scripts are
/// taken in order, each with the outcome of its run; successful outputs are
/// collected by script name, and the failures are handed back with the
/// name of the script that failed.
pub fn run_cycle(scripts: &Vec<MandwmCommand>, runs: Vec<CommandRun>) -> (r: (BarCycle, Vec<(String, MandwmError)>))
    requires
        scripts@.len() == runs@.len(),
    ensures
        entry_pairs(r.0.view_entries()) == cycle_pairs(scripts@, runs@),
        forall|i: int| 0 <= i < scripts@.len() && #[trigger] last_success(scripts@, runs@, i) ==>
            pairs_output(entry_pairs(r.0.view_entries()), scripts@[i].name@) == success_output(runs@[i]),
        forall|k: int| 0 <= k < r.0.view_entries().len() ==>
            name_succeeded(scripts@, runs@, (#[trigger] r.0.view_entries()[k]).name@),
        r.1@.len() == cycle_failures(scripts@, runs@).len(),
        forall|j: int| 0 <= j < r.1@.len() ==> {
            &&& (#[trigger] r.1@[j]).0@ == cycle_failures(scripts@, runs@)[j].0
            &&& r.1@[j].1.spec_message() == cycle_failures(scripts@, runs@)[j].1
            &&& r.1@[j].1.spec_level() == cycle_failures(scripts@, runs@)[j].2
        },
{
    let ghost all_runs = runs@;
    let mut runs = runs;
    let mut cycle = BarCycle::new();
    let mut failures: Vec<(String, MandwmError)> = Vec::new();
    let n = scripts.len();
    let mut i: usize = 0;
    proof {
        assert(scripts@.take(0) =~= Seq::<MandwmCommand>::empty());
    }
    while i < n
        invariant
            n == scripts@.len(),
            n == all_runs.len(),
            i <= n,
            runs@ == all_runs.subrange(i as int, n as int),
            entry_pairs(cycle.view_entries()) == cycle_pairs(scripts@.take(i as int), all_runs.take(i as int)),
            failures@.len() == cycle_failures(scripts@.take(i as int), all_runs.take(i as int)).len(),
            forall|j: int| 0 <= j < failures@.len() ==> {
                &&& (#[trigger] failures@[j]).0@ == cycle_failures(scripts@.take(i as int), all_runs.take(i as int))[j].0
                &&& failures@[j].1.spec_message() == cycle_failures(scripts@.take(i as int), all_runs.take(i as int))[j].1
                &&& failures@[j].1.spec_level() == cycle_failures(scripts@.take(i as int), all_runs.take(i as int))[j].2
            },
        decreases n - i,
    {
        let ghost before = cycle.view_entries();
        let ghost old_failures = failures@;
        let run = runs.remove(0);
        proof {
            assert(run == all_runs[i as int]);
            assert(runs@ =~= all_runs.subrange(i + 1, n as int));
            assert(scripts@.take(i + 1).drop_last() =~= scripts@.take(i as int));
            assert(all_runs.take(i + 1).drop_last() =~= all_runs.take(i as int));
            assert(scripts@.take(i + 1).last() == scripts@[i as int]);
            assert(all_runs.take(i + 1).last() == all_runs[i as int]);
        }
        let script = &scripts[i];
        let result = script.output(run);
        let failure = cycle.record(script.name.clone(), result);
        match failure {
            Some(e) => {
                failures.push((script.name.clone(), e));
            },
            None => {
                proof {
                    lemma_recorded_pairs(before, script.name, result->Ok_0);
                }
            },
        }
        proof {
            assert forall|j: int| 0 <= j < failures@.len() implies {
                &&& (#[trigger] failures@[j]).0@ == cycle_failures(scripts@.take(i + 1), all_runs.take(i + 1))[j].0
                &&& failures@[j].1.spec_message() == cycle_failures(scripts@.take(i + 1), all_runs.take(i + 1))[j].1
                &&& failures@[j].1.spec_level() == cycle_failures(scripts@.take(i + 1), all_runs.take(i + 1))[j].2
            } by {
                if j < old_failures.len() {
                    assert(failures@[j] == old_failures[j]);
                }
            }
        }
        i = i + 1;
    }
    proof {
        assert(scripts@.take(n as int) =~= scripts@);
        assert(all_runs.take(n as int) =~= all_runs);
        lemma_cycle_contents(scripts@, all_runs);
        assert forall|k: int| 0 <= k < cycle.view_entries().len() implies
            name_succeeded(scripts@, all_runs, (#[trigger] cycle.view_entries()[k]).name@) by {
            assert(entry_pairs(cycle.view_entries())[k].0 == cycle.view_entries()[k].name@);
        }
    }
    (cycle, failures)
}

/// Law: the bar text of two nonempty runs of entries one after the other
/// is the text of the first, the delimiter, then the text of the second.
pub proof fn lemma_bar_text_concat(a: Seq<BarEntry>, b: Seq<BarEntry>, delimiter: Seq<char>)
    requires
        a.len() > 0,
        b.len() > 0,
    ensures
        bar_text(a + b, delimiter) == bar_text(a, delimiter) + delimiter + bar_text(b, delimiter),
    decreases b.len(),
{
    assert((a + b).drop_last() =~= a + b.drop_last());
    assert((a + b).last() == b.last());
    if b.len() == 1 {
        assert(a + b.drop_last() =~= a);
    } else {
        lemma_bar_text_concat(a, b.drop_last(), delimiter);
        assert(bar_text(a + b, delimiter) =~= bar_text(a, delimiter) + delimiter + bar_text(b, delimiter));
    }
}

/// Law: the bar text is exactly as long as all the outputs together, plus
/// one delimiter between each two entries.
pub proof fn lemma_bar_text_len(entries: Seq<BarEntry>, delimiter: Seq<char>)
    requires
        entries.len() > 0,
    ensures
        bar_text(entries, delimiter).len() == total_output_len(entries) + (entries.len() - 1) * delimiter.len(),
    decreases entries.len(),
{
    if entries.len() == 1 {
        // The one output, with no delimiter; the empty rest adds nothing.
        assert(total_output_len(entries.drop_last()) == 0);
        assert(entries.last() == entries[0]);
        assert(0 * delimiter.len() == 0);
    } else {
        // The text of all but the last, one delimiter, then the last output.
        lemma_bar_text_len(entries.drop_last(), delimiter);
        let n = entries.len() as int;
        let d = delimiter.len() as int;
        assert((n - 2) * d + d == (n - 1) * d) by (nonlinear_arith);
    }
}

/// Law: the whole bar text goes to the root window when it fits in
/// `max_length` characters; when it does not, exactly its first
/// `max_length` characters go.
pub proof fn lemma_root_text_exact(entries: Seq<BarEntry>, delimiter: Seq<char>, max_length: nat)
    ensures
        bar_text(entries, delimiter).len() <= max_length
            ==> root_text(entries, delimiter, max_length) == bar_text(entries, delimiter),
        bar_text(entries, delimiter).len() > max_length ==> {
            &&& root_text(entries, delimiter, max_length).len() == max_length
            &&& root_text(entries, delimiter, max_length) == bar_text(entries, delimiter).take(max_length as int)
        },
{
}

/// Law: what goes to the root window never exceeds the longest text the
/// daemon sends, and is the start of the full bar text.
pub proof fn lemma_root_text_bounded(entries: Seq<BarEntry>, delimiter: Seq<char>, max_length: nat)
    ensures
        root_text(entries, delimiter, max_length).len() <= max_length,
        root_text(entries, delimiter, max_length)
            == bar_text(entries, delimiter).take(root_text(entries, delimiter, max_length).len() as int),
{
    assert(bar_text(entries, delimiter).take(bar_text(entries, delimiter).len() as int) =~= bar_text(entries, delimiter));
}

/// Law: recording an output keeps script names distinct, gives the script
/// that output (a read after the write returns what was written), and
/// leaves every other script's output as it was.
pub proof fn lemma_record_read_after_write(entries: Seq<BarEntry>, name: String, output: String, other: Seq<char>)
    requires
        names_distinct(entries),
    ensures
        names_distinct(recorded(entries, name, output)),
        output_of(recorded(entries, name, output), name@) == Some(output@),
        other != name@ ==> output_of(recorded(entries, name, output), other) == output_of(entries, other),
{
    let r = recorded(entries, name, output);
    if has_name(entries, name@) {
        let i = position_of(entries, name@);
        assert(r[i].name@ == name@);
        assert(has_name(r, name@));
        if other != name@ {
            if has_name(entries, other) {
                let k = position_of(entries, other);
                assert(r[k].name@ == other);
                assert(has_name(r, other));
            }
            if has_name(r, other) {
                let k = position_of(r, other);
                assert(entries[k].name@ == other);
            }
        }
    } else {
        assert(r[entries.len() as int].name@ == name@);
        assert(has_name(r, name@));
        if other != name@ {
            if has_name(entries, other) {
                let k = position_of(entries, other);
                assert(r[k].name@ == other);
                assert(has_name(r, other));
            }
            if has_name(r, other) {
                let k = position_of(r, other);
                assert(entries[k].name@ == other);
            }
        }
    }
}

/// Law: recording two outputs of the same script keeps only the second.
pub proof fn lemma_record_last_write_wins(entries: Seq<BarEntry>, name: String, first: String, second: String)
    requires
        names_distinct(entries),
    ensures
        recorded(recorded(entries, name, first), name, second) == recorded(entries, name, second),
{
    let r1 = recorded(entries, name, first);
    if has_name(entries, name@) {
        let i = position_of(entries, name@);
        assert(r1[i].name@ == name@);
        assert(has_name(r1, name@));
        let k = position_of(r1, name@);
        assert(k == i);
        assert(recorded(r1, name, second) =~= recorded(entries, name, second));
    } else {
        let i = entries.len() as int;
        assert(r1[i].name@ == name@);
        assert(has_name(r1, name@));
        let k = position_of(r1, name@);
        assert(k == i);
        assert(recorded(r1, name, second) =~= recorded(entries, name, second));
    }
}

} // verus!
