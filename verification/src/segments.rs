//! The list of segments that make up the dwm status bar, and the rules by
//! which the primary string and appended messages change it.

use vstd::prelude::*;

verus! {

/// The segments after the primary string is set to `message`: the first
/// segment is replaced, or, on an empty bar, `message` becomes its only
/// segment.
pub open spec fn with_primary(bar: Seq<String>, message: String) -> Seq<String> {
    if bar.len() >= 1 {
        bar.update(0, message)
    } else {
        seq![message]
    }
}

/// The segments after `message` is put in front of all the others.
pub open spec fn appended_first(bar: Seq<String>, message: String) -> Seq<String> {
    seq![message] + bar
}

/// The segments after `message` is put behind all the others.
pub open spec fn appended_last(bar: Seq<String>, message: String) -> Seq<String> {
    bar.push(message)
}

/// Replaces the first segment of `bar` by `message`, or adds it as the only
/// segment when `bar` is empty.
pub fn set_primary(bar: &mut Vec<String>, message: String)
    ensures
        final(bar)@ == with_primary(old(bar)@, message),
{
    if bar.len() >= 1 {
        bar.set(0, message);
    } else {
        bar.push(message);
    }
}

/// Law: after the primary string is set, it is what the bar shows first.
pub proof fn lemma_primary_read_after_write(bar: Seq<String>, message: String)
    ensures
        with_primary(bar, message).len() >= 1,
        with_primary(bar, message)[0] == message,
{
}

/// Law: setting the primary string twice is the same as setting it once to
/// the second value; the last write wins.
pub proof fn lemma_primary_last_write_wins(bar: Seq<String>, first: String, second: String)
    ensures
        with_primary(with_primary(bar, first), second) == with_primary(bar, second),
{
    assert(with_primary(with_primary(bar, first), second) =~= with_primary(bar, second));
}

/// Law: setting the primary string leaves every other segment where it was,
/// and adds a segment only to an empty bar.
pub proof fn lemma_primary_keeps_the_rest(bar: Seq<String>, message: String)
    ensures
        with_primary(bar, message).len() == if bar.len() == 0 { 1 } else { bar.len() },
        forall|i: int| 1 <= i < bar.len() ==> #[trigger] with_primary(bar, message)[i] == bar[i],
{
}

/// Law: a message appended in front or behind is found at that end, and the
/// segments that were there keep their order.
pub proof fn lemma_append_keeps_order(bar: Seq<String>, message: String)
    ensures
        appended_first(bar, message)[0] == message,
        appended_first(bar, message).subrange(1, bar.len() as int + 1) == bar,
        appended_last(bar, message)[bar.len() as int] == message,
        appended_last(bar, message).subrange(0, bar.len() as int) == bar,
        appended_first(bar, message).len() == bar.len() + 1,
        appended_last(bar, message).len() == bar.len() + 1,
{
    assert(appended_first(bar, message).subrange(1, bar.len() as int + 1) =~= bar);
    assert(appended_last(bar, message).subrange(0, bar.len() as int) =~= bar);
}

/// Law: setting the primary string after a message was put in front replaces
/// that message and nothing else.
pub proof fn lemma_primary_overwrites_front(bar: Seq<String>, message: String, primary: String)
    ensures
        with_primary(appended_first(bar, message), primary) == appended_first(bar, primary),
{
    assert(with_primary(appended_first(bar, message), primary) =~= appended_first(bar, primary));
}

} // verus!
