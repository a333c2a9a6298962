//! Telling orphaned descendants from managed children, and reaping the
//! orphans.
//!
//! A process that is marked as a child subreaper inherits the descendants
//! that lose their parent. It must wait on them, or they stay behind as
//! zombies; and it must not wait on the children that a service controller
//! owns, or the controller loses their exit status. The registry here keeps
//! the owned children apart.

use crate::error::Error;
use crate::text::chars_of;
use nix::errno::Errno;
use nix::sys::wait::{waitpid, WaitPidFlag, WaitStatus};
use nix::unistd::Pid;
use std::collections::HashSet;
use vstd::prelude::*;

verus! {

broadcast use vstd::std_specs::hash::group_hash_axioms;

/// The registry of managed children: the process ids that the reaper leaves
/// alone. Its view is the set of those ids.
pub struct Subreaper {
    children: HashSet<i32>,
}

/// What keeps a child registered. Releasing it takes the child out of the
/// registry again.
#[derive(Debug, PartialEq, Eq)]
pub struct ChildGuard(Option<i32>);

/// What a wait without blocking said of a process.
#[derive(Debug, Clone, PartialEq, Eq)]
pub enum WaitOutcome {
    /// The process ended with this exit status and was reaped.
    Exited(i32),
    /// The process was ended by this signal and was reaped.
    Signaled(i32),
    /// The process is still running.
    StillAlive,
    /// The process changed its state in another way.
    Other,
    /// The caller has no such child.
    NoChild,
    /// The wait was interrupted by a signal.
    Interrupted,
    /// The wait failed in another way; the text is the system's message.
    Failed(String),
}

/// What came of the wait on one orphan, for the log.
#[derive(Debug, Clone, PartialEq, Eq)]
pub enum ReapKind {
    /// The orphan had ended with this exit status; logged for debugging.
    Exited(i32),
    /// The orphan had been ended by this signal; logged for debugging.
    Signaled(i32),
    /// The wait failed; logged as a warning with the system's message.
    Failed(String),
}

/// A reaped orphan, or a wait that failed.
#[derive(Debug, Clone, PartialEq, Eq)]
pub struct ReapReport {
    /// The process that was waited on.
    pub pid: i32,
    /// What came of the wait.
    pub kind: ReapKind,
}

/// What follows one wait on an orphan.
#[derive(Debug, Clone, PartialEq, Eq)]
pub enum ReapStep {
    /// Nothing more is done for this process now; the report, if there is
    /// one, goes to the log.
    Done(Option<ReapKind>),
    /// The wait is made again.
    Retry,
}

/// One use of a guard: a child is registered, or a registered child is
/// released.
pub enum GuardOp {
    /// The child with this id is registered.
    Track(i32),
    /// The guard of the child with this id is released.
    Release(i32),
}

/// The registry after a run of guard operations on an empty registry.
pub open spec fn tracked_after(ops: Seq<GuardOp>) -> Set<i32>
    decreases ops.len(),
{
    if ops.len() == 0 {
        Set::<i32>::empty()
    } else {
        match ops.last() {
            GuardOp::Track(pid) => tracked_after(ops.drop_last()).insert(pid),
            GuardOp::Release(pid) => tracked_after(ops.drop_last()).remove(pid),
        }
    }
}

/// The number of guards of a process that are held after a run of guard
/// operations: the registrations less the releases.
pub open spec fn guards_held(ops: Seq<GuardOp>, pid: i32) -> int
    decreases ops.len(),
{
    if ops.len() == 0 {
        0
    } else {
        guards_held(ops.drop_last(), pid) + match ops.last() {
            GuardOp::Track(p) => if p == pid {
                1int
            } else {
                0int
            },
            GuardOp::Release(p) => if p == pid {
                -1int
            } else {
                0int
            },
        }
    }
}

/// The guards are used as the system allows: a process is registered only
/// while no guard of it is held (a process id names one live process at a
/// time), and a guard is released only while it is held.
pub open spec fn disciplined(ops: Seq<GuardOp>) -> bool
    decreases ops.len(),
{
    if ops.len() == 0 {
        true
    } else {
        &&& disciplined(ops.drop_last())
        &&& match ops.last() {
            GuardOp::Track(pid) => guards_held(ops.drop_last(), pid) == 0,
            GuardOp::Release(pid) => guards_held(ops.drop_last(), pid) == 1,
        }
    }
}

/// The registry holds exactly the children whose guards are held: after any
/// disciplined run of registrations and releases, a process id is in the
/// registry if and only if one guard of it is held, and no process has more
/// than one.
pub proof fn lemma_registry_is_guards_held(ops: Seq<GuardOp>, pid: i32)
    requires
        disciplined(ops),
    ensures
        0 <= guards_held(ops, pid) <= 1,
        tracked_after(ops).contains(pid) <==> guards_held(ops, pid) == 1,
    decreases ops.len(),
{
    if ops.len() > 0 {
        lemma_registry_is_guards_held(ops.drop_last(), pid);
    }
}

/// Whether a character is white space, as Unicode defines it.
pub open spec fn is_white_space(c: char) -> bool {
    let v = c as u32;
    ||| 9 <= v <= 13
    ||| v == 0x20
    ||| v == 0x85
    ||| v == 0xA0
    ||| v == 0x1680
    ||| 0x2000 <= v <= 0x200A
    ||| v == 0x2028
    ||| v == 0x2029
    ||| v == 0x202F
    ||| v == 0x205F
    ||| v == 0x3000
}

/// Whether a character is one of the ten decimal digits.
pub open spec fn is_digit(c: char) -> bool {
    48 <= c as u32 <= 57
}

/// Every character of the text is a decimal digit.
pub open spec fn all_digits(text: Seq<char>) -> bool {
    forall|i: int| 0 <= i < text.len() ==> is_digit(#[trigger] text[i])
}

/// The number that a text of decimal digits writes.
pub open spec fn digits_value(digits: Seq<char>) -> int
    decreases digits.len(),
{
    if digits.len() == 0 {
        0
    } else {
        digits_value(digits.drop_last()) * 10 + (digits.last() as u32 - 48)
    }
}

/// The process id that a word writes, if it writes one: decimal digits after
/// an optional sign, within the range of a 32-bit integer.
pub open spec fn token_value(token: Seq<char>) -> Option<i32> {
    if token.len() == 0 {
        None
    } else {
        let negative = token[0] == '-';
        let digits = if negative || token[0] == '+' {
            token.subrange(1, token.len() as int)
        } else {
            token
        };
        let value = if negative {
            -digits_value(digits)
        } else {
            digits_value(digits)
        };
        if digits.len() == 0 || !all_digits(digits) || value < i32::MIN || value > i32::MAX {
            None
        } else {
            Some(value as i32)
        }
    }
}

/// The words of a text: its pieces between white space, empty pieces left
/// out.
pub open spec fn words(text: Seq<char>) -> Seq<Seq<char>>
    decreases text.len(),
{
    if text.len() == 0 {
        Seq::<Seq<char>>::empty()
    } else {
        let before = words(text.drop_last());
        if is_white_space(text.last()) {
            before
        } else if text.len() >= 2 && !is_white_space(text[text.len() - 2]) && before.len() > 0 {
            before.drop_last().push(before.last().push(text.last()))
        } else {
            before.push(seq![text.last()])
        }
    }
}

/// The process ids that a sequence of words writes: the value of each word
/// that writes one, in order.
pub open spec fn values_of(tokens: Seq<Seq<char>>) -> Seq<i32>
    decreases tokens.len(),
{
    if tokens.len() == 0 {
        Seq::<i32>::empty()
    } else {
        match token_value(tokens.last()) {
            Some(pid) => values_of(tokens.drop_last()).push(pid),
            None => values_of(tokens.drop_last()),
        }
    }
}

/// The process ids that the text of a `children` file lists: the values of
/// its words; words that write no process id are passed over.
pub open spec fn listed_children(text: Seq<char>) -> Seq<i32> {
    values_of(words(text))
}

/// The orphans among the listed children: the positive process ids that are
/// listed and not managed.
pub open spec fn orphan_set(children: Seq<i32>, managed: Set<i32>) -> Set<i32> {
    Set::new(|pid: i32| pid > 0 && children.contains(pid) && !managed.contains(pid))
}

/// The orphans among the listed children in the order in which they are
/// waited on: every positive process id that is listed and not managed, at
/// the place where it is listed first.
pub open spec fn orphan_list(children: Seq<i32>, managed: Set<i32>) -> Seq<i32>
    decreases children.len(),
{
    if children.len() == 0 {
        Seq::<i32>::empty()
    } else {
        let earlier = orphan_list(children.drop_last(), managed);
        let pid = children.last();
        if pid > 0 && !managed.contains(pid) && !earlier.contains(pid) {
            earlier.push(pid)
        } else {
            earlier
        }
    }
}

/// The process ids of a sequence of reports, in order.
pub open spec fn reported_pids(reports: Seq<ReapReport>) -> Seq<i32> {
    Seq::new(reports.len(), |k: int| reports[k].pid)
}

/// The process ids `pids` are taken from `list` without changing their
/// order: each stands at a place of `list`, and the places ascend.
pub open spec fn taken_in_order(pids: Seq<i32>, list: Seq<i32>) -> bool {
    exists|places: Seq<int>|
        {
            &&& places.len() == pids.len()
            &&& forall|k: int|
                0 <= k < pids.len() ==> 0 <= #[trigger] places[k] < list.len() && list[places[k]]
                    == pids[k]
            &&& forall|k: int, l: int| 0 <= k < l < pids.len() ==> places[k] < places[l]
        }
}

/// A text of digits writes a number that is not negative.
proof fn lemma_digits_value_bounds(digits: Seq<char>)
    requires
        all_digits(digits),
    ensures
        digits_value(digits) >= 0,
    decreases digits.len(),
{
    if digits.len() > 0 {
        assert(is_digit(digits.last()));
        assert forall|i: int| 0 <= i < digits.drop_last().len() implies is_digit(
            #[trigger] digits.drop_last()[i],
        ) by {
            assert(is_digit(digits[i]));
        }
        lemma_digits_value_bounds(digits.drop_last());
    }
}

/// A text of digits writes a number no smaller than any of its beginnings
/// writes.
proof fn lemma_digits_value_grows(digits: Seq<char>, k: int)
    requires
        all_digits(digits),
        0 <= k <= digits.len(),
    ensures
        digits_value(digits.take(k)) <= digits_value(digits),
    decreases digits.len(),
{
    if k == digits.len() {
        assert(digits.take(k) =~= digits);
    } else {
        assert(is_digit(digits.last()));
        assert forall|i: int| 0 <= i < digits.drop_last().len() implies is_digit(
            #[trigger] digits.drop_last()[i],
        ) by {
            assert(is_digit(digits[i]));
        }
        lemma_digits_value_bounds(digits.drop_last());
        lemma_digits_value_grows(digits.drop_last(), k);
        assert(digits.drop_last().take(k) =~= digits.take(k));
    }
}

/// Calls `waitpid` of the `nix` crate on one process with the flag
/// `WNOHANG`, and names what came back. Nothing is claimed of the outcome: it
/// depends on the processes of the machine. The process id must be positive:
/// zero and negative ids stand for groups of processes.
#[verifier::external_body]
fn wait_nohang(pid: i32) -> (outcome: WaitOutcome)
    requires
        pid > 0,
{
    match waitpid(Pid::from_raw(pid), Some(WaitPidFlag::WNOHANG)) {
        Ok(WaitStatus::Exited(_, status)) => WaitOutcome::Exited(status),
        Ok(WaitStatus::Signaled(_, signal, _)) => WaitOutcome::Signaled(signal as i32),
        Ok(WaitStatus::StillAlive) => WaitOutcome::StillAlive,
        Ok(_) => WaitOutcome::Other,
        Err(Errno::ECHILD) => WaitOutcome::NoChild,
        Err(Errno::EINTR) => WaitOutcome::Interrupted,
        Err(errno) => WaitOutcome::Failed(errno.to_string()),
    }
}

/// Calls `clone` on a hash set of process ids: the copy holds the same ids.
#[verifier::external_body]
fn clone_pids(pids: &HashSet<i32>) -> (copy: HashSet<i32>)
    ensures
        copy@ == pids@,
{
    pids.clone()
}

impl View for Subreaper {
    type V = Set<i32>;

    closed spec fn view(&self) -> Set<i32> {
        self.children@
    }
}

impl ChildGuard {
    /// The process that the guard keeps registered, if it keeps one.
    pub closed spec fn spec_pid(&self) -> Option<i32> {
        self.0
    }

    /// A guard for a registered child.
    pub fn new(pid: i32) -> (guard: ChildGuard)
        ensures
            guard.spec_pid() == Some(pid),
    {
        ChildGuard(Some(pid))
    }

    /// A guard that keeps nothing registered.
    pub fn noop() -> (guard: ChildGuard)
        ensures
            guard.spec_pid() is None,
    {
        ChildGuard(None)
    }

    /// The process that the guard keeps registered, if it keeps one.
    pub fn pid(&self) -> (pid: Option<i32>)
        ensures
            pid == self.spec_pid(),
    {
        self.0
    }

    /// Gives the guard up: its child, if it has one, leaves the registry.
    pub fn release(self, registry: &mut Subreaper)
        ensures
            final(registry)@ == match self.spec_pid() {
                Some(pid) => old(registry)@.remove(pid),
                None => old(registry)@,
            },
    {
        match self.0 {
            Some(pid) => registry.unregister_child(pid),
            None => {},
        }
    }
}

impl Subreaper {
    /// An empty registry.
    pub fn new() -> (registry: Subreaper)
        ensures
            registry@ == Set::<i32>::empty(),
    {
        Subreaper { children: HashSet::new() }
    }

    /// What enabling the subreaper mode came to: the system call's return
    /// value zero gives an empty registry; any other value is an error with
    /// the system's message.
    pub fn enable(rc: i32, message: String) -> (registry: Result<Subreaper, Error>)
        ensures
            registry is Ok == (rc == 0),
            registry matches Ok(r) ==> r@ == Set::<i32>::empty(),
            registry matches Err(e) ==> e == Error::IOErr(message),
    {
        if rc != 0 {
            return Err(Error::IOErr(message));
        }
        Ok(Subreaper::new())
    }

    /// The managed children.
    pub fn registry(&self) -> (children: &HashSet<i32>)
        ensures
            children@ == self@,
    {
        &self.children
    }

    /// Puts a child into the registry.
    pub fn register_child(&mut self, pid: i32)
        ensures
            final(self)@ == old(self)@.insert(pid),
    {
        self.children.insert(pid);
    }

    /// Takes a child out of the registry.
    pub fn unregister_child(&mut self, pid: i32)
        ensures
            final(self)@ == old(self)@.remove(pid),
    {
        self.children.remove(&pid);
    }

    /// A copy of the managed children as they are now.
    pub fn snapshot_managed(&self) -> (managed: HashSet<i32>)
        ensures
            managed@ == self@,
    {
        clone_pids(&self.children)
    }

    /// Registers a direct child, so that the reaper leaves its exit status
    /// to its owner. Without a process id nothing is registered. The id is
    /// taken as the system's signed process id.
    pub fn track_child(&mut self, pid: Option<u32>) -> (guard: Result<ChildGuard, Error>)
        ensures
            guard is Ok,
            pid matches Some(p) ==> guard->Ok_0.spec_pid() == Some(p as i32) && final(self)@ == old(
                self,
            )@.insert(p as i32),
            pid is None ==> guard->Ok_0.spec_pid() is None && final(self)@ == old(self)@,
    {
        match pid {
            Some(p) => {
                let raw = #[verifier::truncate]
                (p as i32);
                self.register_child(raw);
                Ok(ChildGuard::new(raw))
            },
            None => Ok(ChildGuard::noop()),
        }
    }

    /// Reads a word as a process id.
    pub fn parse_pid(token: &Vec<char>) -> (pid: Option<i32>)
        ensures
            pid == token_value(token@),
    {
        let n = token.len();
        if n == 0 {
            return None;
        }
        let negative = token[0] == '-';
        let start: usize = if negative || token[0] == '+' {
            1
        } else {
            0
        };
        if start == n {
            return None;
        }
        let ghost digits = token@.subrange(start as int, n as int);
        assert(start == 0 ==> digits =~= token@);
        let limit: i64 = 2147483648;
        let mut value: i64 = 0;
        let mut i: usize = start;
        while i < n
            invariant
                start <= i <= n,
                n == token@.len(),
                n > 0,
                negative == (token@[0] == '-'),
                start == if negative || token@[0] == '+' {
                    1usize
                } else {
                    0usize
                },
                start == 0 ==> digits == token@,
                digits == token@.subrange(start as int, n as int),
                all_digits(digits.take(i - start)),
                value == digits_value(digits.take(i - start)),
                0 <= value <= limit,
                limit == 2147483648,
            decreases n - i,
        {
            let v = token[i] as u32;
            if v < 48 || v > 57 {
                assert(!is_digit(digits[i - start]));
                return None;
            }
            let next = value * 10 + (v - 48) as i64;
            proof {
                let more = digits.take(i - start + 1);
                assert(more.drop_last() =~= digits.take(i - start));
                assert(more.last() == token@[i as int]);
                assert(all_digits(more)) by {
                    assert forall|k: int| 0 <= k < more.len() implies is_digit(
                        #[trigger] more[k],
                    ) by {
                        if k < i - start {
                            assert(more[k] == digits.take(i - start)[k]);
                        }
                    }
                }
                assert(next == digits_value(more));
            }
            if next > limit {
                proof {
                    if all_digits(digits) {
                        lemma_digits_value_grows(digits, i - start + 1);
                    }
                }
                return None;
            }
            value = next;
            i += 1;
        }
        assert(digits.take(i - start) =~= digits);
        if negative {
            Some((-value) as i32)
        } else if value == limit {
            None
        } else {
            Some(value as i32)
        }
    }

    /// The process ids that the text of a `children` file lists. The kernel
    /// writes them in decimal with blanks between them; a word that writes no
    /// process id is passed over.
    pub fn parse_children(contents: &str) -> (pids: Vec<i32>)
        ensures
            pids@ == listed_children(contents@),
    {
        let text = chars_of(contents);
        let mut pids: Vec<i32> = Vec::new();
        let mut word: Vec<char> = Vec::new();
        let ghost mut done: Seq<Seq<char>> = Seq::empty();
        let mut i: usize = 0;
        while i < text.len()
            invariant
                i <= text@.len(),
                text@ == contents@,
                pids@ == values_of(done),
                word@.len() == 0 ==> words(text@.take(i as int)) == done,
                word@.len() > 0 ==> words(text@.take(i as int)) == done.push(word@),
                word@.len() > 0 ==> i > 0 && !is_white_space(text@[i - 1]),
                word@.len() == 0 && i > 0 ==> is_white_space(text@[i - 1]),
            decreases text@.len() - i,
        {
            let c = text[i];
            let v = c as u32;
            let space = (9 <= v && v <= 13) || v == 0x20 || v == 0x85 || v == 0xA0 || v == 0x1680
                || (0x2000 <= v && v <= 0x200A) || v == 0x2028 || v == 0x2029 || v == 0x202F || v
                == 0x205F || v == 0x3000;
            assert(space == is_white_space(c));
            proof {
                let more = text@.take(i as int + 1);
                assert(more.drop_last() =~= text@.take(i as int));
                assert(more.last() == c);
                if i > 0 {
                    assert(more[more.len() - 2] == text@[i - 1]);
                }
            }
            if space {
                if word.len() > 0 {
                    let pid = Subreaper::parse_pid(&word);
                    proof {
                        let finished = done.push(word@);
                        assert(finished.drop_last() =~= done);
                        assert(finished.last() == word@);
                        done = finished;
                    }
                    match pid {
                        Some(p) => {
                            pids.push(p);
                        },
                        None => {},
                    }
                    word = Vec::new();
                }
            } else {
                let ghost before = word@;
                word.push(c);
                proof {
                    if before.len() > 0 {
                        let prior = done.push(before);
                        assert(prior.drop_last() =~= done);
                        assert(prior.last() == before);
                        assert(prior.drop_last().push(prior.last().push(c)) =~= done.push(word@));
                    } else {
                        assert(seq![c] =~= word@);
                    }
                }
            }
            i += 1;
        }
        assert(text@.take(i as int) =~= text@);
        if word.len() > 0 {
            let pid = Subreaper::parse_pid(&word);
            proof {
                let finished = done.push(word@);
                assert(finished.drop_last() =~= done);
                assert(finished.last() == word@);
            }
            match pid {
                Some(p) => {
                    pids.push(p);
                },
                None => {},
            }
        }
        pids
    }

    /// The orphans among the listed children: every positive process id that
    /// is listed and not managed, once, in the order in which they are listed
    /// first.
    pub fn orphans(children: &Vec<i32>, managed: &HashSet<i32>) -> (orphans: Vec<i32>)
        ensures
            orphans@ == orphan_list(children@, managed@),
            orphans@.to_set() == orphan_set(children@, managed@),
            orphans@.no_duplicates(),
    {
        let mut orphans: Vec<i32> = Vec::new();
        let mut seen: HashSet<i32> = HashSet::new();
        let mut i: usize = 0;
        while i < children.len()
            invariant
                i <= children@.len(),
                orphans@ == orphan_list(children@.take(i as int), managed@),
                orphans@.no_duplicates(),
                forall|p: i32| seen@.contains(p) <==> orphans@.contains(p),
                forall|p: i32|
                    #[trigger] orphans@.contains(p) <==> (p > 0 && children@.take(
                        i as int,
                    ).contains(p) && !managed@.contains(p)),
            decreases children@.len() - i,
        {
            let pid = children[i];
            let ghost before = orphans@;
            let ghost done = children@.take(i as int);
            let ghost more = children@.take(i as int + 1);
            proof {
                assert(more =~= done.push(pid));
                assert(more.drop_last() =~= done);
                assert(more.last() == pid);
                assert(seen@.contains(pid) <==> before.contains(pid));
                assert forall|p: i32| more.contains(p) <==> done.contains(p) || p == pid by {
                    if done.contains(p) {
                        let k = choose|k: int| 0 <= k < done.len() && done[k] == p;
                        assert(more[k] == p);
                    }
                    if p == pid {
                        assert(more[i as int] == p);
                    }
                    if more.contains(p) {
                        let k = choose|k: int| 0 <= k < more.len() && more[k] == p;
                        if k < i {
                            assert(done[k] == p);
                        }
                    }
                }
            }
            if pid > 0 && !managed.contains(&pid) && !seen.contains(&pid) {
                seen.insert(pid);
                orphans.push(pid);
                proof {
                    assert forall|p: i32| orphans@.contains(p) <==> before.contains(p) || p
                        == pid by {
                        if before.contains(p) {
                            let k = choose|k: int| 0 <= k < before.len() && before[k] == p;
                            assert(orphans@[k] == p);
                        }
                        if p == pid {
                            assert(orphans@[before.len() as int] == p);
                        }
                        if orphans@.contains(p) {
                            let k = choose|k: int| 0 <= k < orphans@.len() && orphans@[k] == p;
                            if k < before.len() {
                                assert(before[k] == p);
                            }
                        }
                    }
                    assert(orphans@ =~= before.push(pid));
                }
            }
            assert forall|p: i32| #[trigger] orphans@.contains(p) <==> (p > 0 && more.contains(p)
                && !managed@.contains(p)) by {
                assert(before.contains(p) <==> p > 0 && done.contains(p) && !managed@.contains(p));
                assert(more.contains(p) <==> done.contains(p) || p == pid);
                assert(seen@.contains(p) <==> orphans@.contains(p));
            }
            assert(orphans@ == orphan_list(more, managed@));
            assert(children@.take((i + 1) as int) == more);
            i += 1;
        }
        assert(children@.take(i as int) =~= children@);
        assert(orphans@.to_set() =~= orphan_set(children@, managed@));
        orphans
    }

    /// What follows one wait on an orphan: an orphan that had ended is
    /// reported; one that still runs, or that is no child of ours, is left; an
    /// interrupted wait and any other change of state call for another wait;
    /// any other failure is reported and the orphan left.
    pub fn after_wait(outcome: WaitOutcome) -> (step: ReapStep)
        ensures
            step == match outcome {
                WaitOutcome::Exited(status) => ReapStep::Done(Some(ReapKind::Exited(status))),
                WaitOutcome::Signaled(signal) => ReapStep::Done(
                    Some(ReapKind::Signaled(signal)),
                ),
                WaitOutcome::StillAlive => ReapStep::Done(None),
                WaitOutcome::NoChild => ReapStep::Done(None),
                WaitOutcome::Other => ReapStep::Retry,
                WaitOutcome::Interrupted => ReapStep::Retry,
                WaitOutcome::Failed(message) => ReapStep::Done(Some(ReapKind::Failed(message))),
            },
    {
        match outcome {
            WaitOutcome::Exited(status) => ReapStep::Done(Some(ReapKind::Exited(status))),
            WaitOutcome::Signaled(signal) => ReapStep::Done(Some(ReapKind::Signaled(signal))),
            WaitOutcome::StillAlive => ReapStep::Done(None),
            WaitOutcome::NoChild => ReapStep::Done(None),
            WaitOutcome::Other => ReapStep::Retry,
            WaitOutcome::Interrupted => ReapStep::Retry,
            WaitOutcome::Failed(message) => ReapStep::Done(Some(ReapKind::Failed(message))),
        }
    }

    /// Waits on one orphan without blocking, again while the wait is
    /// interrupted, and says what to log. The waits are counted, so that the
    /// function ends even if every wait were interrupted.
    pub fn reap_one(pid: i32) -> (report: Option<ReapReport>)
        requires
            pid > 0,
        ensures
            report matches Some(r) ==> r.pid == pid,
    {
        let mut attempts: u64 = 0;
        while attempts < u64::MAX
            invariant
                pid > 0,
            decreases u64::MAX - attempts,
        {
            match Subreaper::after_wait(wait_nohang(pid)) {
                ReapStep::Done(Some(kind)) => {
                    return Some(ReapReport { pid, kind });
                },
                ReapStep::Done(None) => {
                    return None;
                },
                ReapStep::Retry => {
                    attempts += 1;
                },
            }
        }
        None
    }

    /// Reaps the orphans among the listed children and says what to log.
    /// The orphans are waited on one after the other, in the order in which
    /// they are listed first, and whatever a wait comes to, the next orphan
    /// has its turn. Managed children are never waited on. So every report is
    /// of a listed, positive process id outside the registry, no process is
    /// reported twice, and the reports stand in the order of the orphans.
    /// Which of the orphans are reported, and with what, is for the system to
    /// say: without orphans there is no report.
    pub fn reap_orphaned_children(&self, children: &Vec<i32>) -> (reports: Vec<ReapReport>)
        ensures
            taken_in_order(reported_pids(reports@), orphan_list(children@, self@)),
            reports@.len() <= orphan_list(children@, self@).len(),
            forall|i: int|
                0 <= i < reports@.len() ==> orphan_set(children@, self@).contains(
                    (#[trigger] reports@[i]).pid,
                ),
            forall|i: int, j: int|
                0 <= i < j < reports@.len() ==> reports@[i].pid != reports@[j].pid,
    {
        let managed = self.snapshot_managed();
        let orphans = Subreaper::orphans(children, &managed);
        let mut reports: Vec<ReapReport> = Vec::new();
        let ghost mut places: Seq<int> = Seq::empty();
        let mut i: usize = 0;
        while i < orphans.len()
            invariant
                i <= orphans@.len(),
                orphans@ == orphan_list(children@, self@),
                orphans@.no_duplicates(),
                orphans@.to_set() == orphan_set(children@, self@),
                places.len() == reports@.len(),
                reports@.len() <= i,
                forall|k: int|
                    0 <= k < reports@.len() ==> 0 <= #[trigger] places[k] < i && orphans@[places[k]]
                        == reports@[k].pid,
                forall|k: int, l: int| 0 <= k < l < reports@.len() ==> places[k] < places[l],
            decreases orphans@.len() - i,
        {
            let pid = orphans[i];
            assert(orphan_set(children@, self@).contains(pid)) by {
                assert(orphans@.contains(pid));
                assert(orphans@.to_set().contains(pid));
            }
            match Subreaper::reap_one(pid) {
                Some(report) => {
                    let ghost before = reports@;
                    let ghost earlier = places;
                    reports.push(report);
                    proof {
                        places = earlier.push(i as int);
                        assert forall|k: int| 0 <= k < reports@.len() implies 0 <= #[trigger] places[k]
                            < i + 1 && orphans@[places[k]] == reports@[k].pid by {
                            if k < before.len() {
                                assert(places[k] == earlier[k]);
                                assert(reports@[k] == before[k]);
                            }
                        }
                        assert forall|k: int, l: int| 0 <= k < l < reports@.len() implies places[k]
                            < places[l] by {
                            assert(places[k] == earlier[k]);
                            if l < before.len() {
                                assert(places[l] == earlier[l]);
                            }
                        }
                    }
                },
                None => {},
            }
            i += 1;
        }
        proof {
            let pids = reported_pids(reports@);
            let list = orphans@;
            assert(places.len() == pids.len());
            assert forall|k: int| 0 <= k < pids.len() implies 0 <= #[trigger] places[k] < list.len()
                && list[places[k]] == pids[k] by {
                assert(orphans@[places[k]] == reports@[k].pid);
            }
            assert forall|k: int, l: int| 0 <= k < l < pids.len() implies places[k] < places[l] by {}
            assert(taken_in_order(pids, list));
            assert forall|k: int| 0 <= k < reports@.len() implies orphan_set(
                children@,
                self@,
            ).contains((#[trigger] reports@[k]).pid) by {
                assert(orphans@[places[k]] == reports@[k].pid);
                assert(orphans@.contains(orphans@[places[k]]));
                assert(orphans@.to_set().contains(orphans@[places[k]]));
            }
            assert forall|k: int, l: int| 0 <= k < l < reports@.len() implies reports@[k].pid
                != reports@[l].pid by {
                assert(places[k] < places[l]);
                assert(orphans@[places[k]] == reports@[k].pid);
                assert(orphans@[places[l]] == reports@[l].pid);
            }
        }
        reports
    }
}

} // verus!
