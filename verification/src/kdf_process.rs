//! Reading the output of the process lookup that finds running KDF nodes,
//! and the bounded probing of a node while it starts or stops.

use crate::coins::{chars_of, trim_chars, trimmed};
use crate::display::{message_lines, split_lines};
use crate::text::{decimal, push_char, push_decimal, texts};
use vstd::prelude::*;

verus! {

/// The non-empty texts of `lines`, in order.
pub open spec fn nonempty_lines(lines: Seq<Seq<char>>) -> Seq<Seq<char>>
    decreases lines.len(),
{
    if lines.len() == 0 {
        Seq::empty()
    } else if lines.last().len() == 0 {
        nonempty_lines(lines.drop_last())
    } else {
        nonempty_lines(lines.drop_last()).push(lines.last())
    }
}

/// The process ids listed by `pgrep`: the non-empty lines of its trimmed output.
pub open spec fn pid_list(output: Seq<char>) -> Seq<Seq<char>> {
    nonempty_lines(split_lines(trimmed(output)))
}

/// The process ids listed in the output of `pgrep`, one per line.
pub fn running_pids(output: &str) -> (r: Vec<String>)
    ensures
        texts(r@) == pid_list(output@),
{
    let t = trim_chars(&chars_of(output));
    let mut text = String::new();
    let mut i: usize = 0;
    while i < t.len()
        invariant
            i <= t@.len(),
            text@ == t@.take(i as int),
        decreases t@.len() - i,
    {
        push_char(&mut text, t[i]);
        i = i + 1;
        assert(text@ =~= t@.take(i as int));
    }
    assert(t@.take(t@.len() as int) =~= t@);
    let lines = message_lines(text.as_str());
    let mut out: Vec<String> = Vec::new();
    let mut k: usize = 0;
    while k < lines.len()
        invariant
            k <= lines@.len(),
            texts(out@) == nonempty_lines(texts(lines@.take(k as int))),
        decreases lines@.len() - k,
    {
        assert(texts(lines@.take(k + 1)).drop_last() =~= texts(lines@.take(k as int)));
        if lines[k].as_str().unicode_len() > 0 {
            let ghost before = texts(out@);
            out.push(lines[k].clone());
            assert(texts(out@) =~= before.push(lines@[k as int]@));
        }
        k = k + 1;
    }
    assert(lines@.take(lines@.len() as int) =~= lines@);
    out
}

/// `parts` joined with `", "`.
pub open spec fn comma_joined(parts: Seq<Seq<char>>) -> Seq<char>
    decreases parts.len(),
{
    if parts.len() == 0 {
        Seq::empty()
    } else if parts.len() == 1 {
        parts[0]
    } else {
        comma_joined(parts.drop_last()) + ", "@ + parts.last()
    }
}

/// The log line telling which KDF processes were found.
pub fn pids_found_message(pids: &Vec<String>) -> (r: String)
    ensures
        r@ == "Found "@ + decimal(pids@.len()) + " existing KDF process(es) with PID(s): "@ + comma_joined(
            texts(pids@),
        ),
{
    let mut r = String::from_str("Found ");
    push_decimal(&mut r, pids.len() as u64);
    r.append(" existing KDF process(es) with PID(s): ");
    let ghost head = r@;
    let mut i: usize = 0;
    while i < pids.len()
        invariant
            i <= pids@.len(),
            r@ == head + comma_joined(texts(pids@.take(i as int))),
        decreases pids@.len() - i,
    {
        assert(texts(pids@.take(i + 1)).drop_last() =~= texts(pids@.take(i as int)));
        if i > 0 {
            r.append(", ");
        }
        r.append(pids[i].as_str());
        i = i + 1;
        assert(r@ =~= head + comma_joined(texts(pids@.take(i as int))));
    }
    assert(pids@.take(pids@.len() as int) =~= pids@);
    r
}

/// How many times a node is probed, at most, while waiting for it to answer
/// after start-up or to fall silent after a stop.
pub const MAX_PROBES: u32 = 5;

/// A run of probes that ends at the first probe giving the awaited outcome,
/// or after `MAX_PROBES` probes.
#[derive(Debug, Clone, Copy, PartialEq, Eq, Structural)]
pub enum ProbeRun {
    /// `done` probes were made and none gave the awaited outcome.
    Probing { done: u32 },
    /// Probe number `probes` (counted from 1) gave the awaited outcome.
    Reached { probes: u32 },
    /// All `MAX_PROBES` probes were made without the awaited outcome.
    Exhausted,
}

/// A run that can go on: fewer than `MAX_PROBES` probes made so far.
pub open spec fn probe_run_wf(run: ProbeRun) -> bool {
    run matches ProbeRun::Probing { done } ==> done < MAX_PROBES
}

/// The run after one more probe, which gave the awaited outcome when `reached`.
pub open spec fn probe_next(run: ProbeRun, reached: bool) -> ProbeRun {
    match run {
        ProbeRun::Probing { done } => if reached {
            ProbeRun::Reached { probes: (done + 1) as u32 }
        } else if done + 1 < MAX_PROBES {
            ProbeRun::Probing { done: (done + 1) as u32 }
        } else {
            ProbeRun::Exhausted
        },
        other => other,
    }
}

/// The run after probes with the outcomes `reached`, one after another.
pub open spec fn probe_after(reached: Seq<bool>) -> ProbeRun
    decreases reached.len(),
{
    if reached.len() == 0 {
        ProbeRun::Probing { done: 0 }
    } else {
        probe_next(probe_after(reached.drop_last()), reached.last())
    }
}

impl ProbeRun {
    /// A run before its first probe.
    pub fn start() -> (r: ProbeRun)
        ensures
            r == (ProbeRun::Probing { done: 0 }),
            probe_run_wf(r),
    {
        ProbeRun::Probing { done: 0 }
    }

    /// Whether another probe is due.
    pub fn is_probing(&self) -> (r: bool)
        ensures
            r == (*self is Probing),
    {
        match self {
            ProbeRun::Probing { .. } => true,
            _ => false,
        }
    }

    /// Records one more probe, which gave the awaited outcome when `reached`.
    /// A finished run stays as it is.
    pub fn step(self, reached: bool) -> (r: ProbeRun)
        requires
            probe_run_wf(self),
        ensures
            r == probe_next(self, reached),
            probe_run_wf(r),
    {
        match self {
            ProbeRun::Probing { done } => if reached {
                ProbeRun::Reached { probes: done + 1 }
            } else if done + 1 < MAX_PROBES {
                ProbeRun::Probing { done: done + 1 }
            } else {
                ProbeRun::Exhausted
            },
            other => other,
        }
    }
}

/// Law: a run of probes stops at the first awaited outcome and never makes
/// more than `MAX_PROBES` probes. While it goes on, every probe so far missed;
/// when it is reached at probe `p`, that probe hit and all before it missed;
/// when it is exhausted, the first `MAX_PROBES` probes all missed.
pub proof fn law_probe_run(reached: Seq<bool>)
    ensures
        probe_run_wf(probe_after(reached)),
        reached.len() >= MAX_PROBES ==> !(probe_after(reached) is Probing),
        probe_after(reached) matches ProbeRun::Probing { done } ==> done == reached.len() && forall|j: int|
            0 <= j < reached.len() ==> !reached[j],
        probe_after(reached) matches ProbeRun::Reached { probes } ==> 1 <= probes <= MAX_PROBES && probes
            <= reached.len() && reached[probes - 1] && forall|j: int| 0 <= j < probes - 1 ==> !reached[j],
        probe_after(reached) is Exhausted ==> reached.len() >= MAX_PROBES && forall|j: int|
            0 <= j < MAX_PROBES ==> !reached[j],
    decreases reached.len(),
{
    if reached.len() > 0 {
        let prev = reached.drop_last();
        law_probe_run(prev);
        assert forall|j: int| 0 <= j < prev.len() implies prev[j] == reached[j] by {}
    }
}

} // verus!
