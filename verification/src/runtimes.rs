//! Terminals that have been taken out of the layout, and commands that run beside it.

use crate::app::App;
use vstd::prelude::*;

verus! {

/// Why a running command could not be asked whether it has finished.
#[derive(Debug, Clone, Copy, PartialEq, Eq, Structural)]
pub enum WaitFailure {
    Interrupted,
    Other,
}

/// Whether to keep watching a command, given what came of asking whether it has
/// finished and with what code. A question that was interrupted is asked again.
pub fn retain_custom_command_after_wait(result: &Result<Option<i32>, WaitFailure>) -> (r: bool)
    ensures
        r == match *result {
            Ok(code) => code is None,
            Err(failure) => failure == WaitFailure::Interrupted,
        },
{
    match result {
        Ok(None) => true,
        Ok(Some(_)) => false,
        Err(WaitFailure::Interrupted) => true,
        Err(WaitFailure::Other) => false,
    }
}

/// The terminals that are shut down, given those that are to be: each that runs, once,
/// in the order in which they were named first.
pub open spec fn shut_down(named: Seq<Seq<char>>, running: Set<Seq<char>>) -> Seq<Seq<char>>
    decreases named.len(),
{
    if named.len() == 0 {
        Seq::empty()
    } else {
        let before = shut_down(named.drop_last(), running);
        if running.contains(named.last()) && !named.drop_last().contains(named.last()) {
            before.push(named.last())
        } else {
            before
        }
    }
}

/// The characters of each of some strings.
pub open spec fn texts(strings: Seq<String>) -> Seq<Seq<char>> {
    strings.map_values(|s: String| s@)
}

impl App {
    /// Takes the terminals that are to be shut down off the list of those that run.
    /// Gives those that have to be stopped.
    pub fn shutdown_detached_terminal_runtimes(&mut self) -> (stopped: Vec<String>)
        ensures
            texts(stopped@) == shut_down(
                texts(old(self).terminal_runtime_shutdowns@),
                old(self).terminal_runtimes@,
            ),
            final(self).terminal_runtime_shutdowns@.len() == 0,
            final(self).terminal_runtimes@ == old(self).terminal_runtimes@.difference(
                texts(old(self).terminal_runtime_shutdowns@).to_set(),
            ),
            *final(self) == (App {
                terminal_runtime_shutdowns: final(self).terminal_runtime_shutdowns,
                terminal_runtimes: final(self).terminal_runtimes,
                ..*old(self)
            }),
    {
        let mut named: Vec<String> = Vec::new();
        std::mem::swap(&mut named, &mut self.terminal_runtime_shutdowns);
        let ghost ids = texts(named@);
        let ghost running = self.terminal_runtimes@;
        let mut stopped: Vec<String> = Vec::new();
        let mut i: usize = 0;
        proof {
            assert(texts(stopped@) =~= shut_down(ids.take(0), running));
            assert(running =~= running.difference(ids.take(0).to_set()));
        }
        while i < named.len()
            invariant
                i <= named@.len(),
                ids == texts(named@),
                running == old(self).terminal_runtimes@,
                texts(stopped@) == shut_down(ids.take(i as int), running),
                self.terminal_runtimes@ == running.difference(ids.take(i as int).to_set()),
                self.terminal_runtime_shutdowns@.len() == 0,
                *self == (App {
                    terminal_runtime_shutdowns: self.terminal_runtime_shutdowns,
                    terminal_runtimes: self.terminal_runtimes,
                    ..*old(self)
                }),
            decreases named@.len() - i,
        {
            let ghost before = ids.take(i as int);
            let ghost after = ids.take(i + 1);
            let ghost id = ids[i as int];
            let ghost so_far = stopped@;
            proof {
                assert(after.drop_last() =~= before);
                assert(after.last() == id);
                assert(id == named@[i as int]@);
            }
            let id_text = named[i].as_str();
            let runs = self.terminal_runtimes.remove(id_text);
            if runs {
                stopped.push(named[i].clone());
                assert(texts(stopped@) =~= texts(so_far).push(id));
            }
            proof {
                assert(before.to_set().contains(id) == before.contains(id));
                assert(runs == (running.contains(id) && !before.contains(id)));
                assert forall|name: Seq<char>|
                    after.to_set().contains(name) == (before.to_set().contains(name) || name
                        == id) by {
                    assert(after =~= before.push(id));
                    assert(after.contains(name) == (before.contains(name) || name == id)) by {
                        if before.contains(name) {
                            let k = choose|k: int| 0 <= k < before.len() && before[k] == name;
                            assert(after[k] == name);
                        }
                        assert(after[before.len() as int] == id);
                        if after.contains(name) {
                            let k = choose|k: int| 0 <= k < after.len() && after[k] == name;
                            if k < before.len() {
                                assert(before[k] == name);
                            }
                        }
                    }
                }
                assert(self.terminal_runtimes@ =~= running.difference(after.to_set()));
            }
            i = i + 1;
        }
        assert(ids.take(i as int) =~= ids);
        stopped
    }
}

/// Every terminal that runs and is to be shut down is shut down, no other is, and none
/// twice.
pub proof fn shut_down_exactly_once(named: Seq<Seq<char>>, running: Set<Seq<char>>)
    ensures
        shut_down(named, running).no_duplicates(),
        forall|id: Seq<char>| #[trigger]
            shut_down(named, running).contains(id) <==> named.contains(id) && running.contains(id),
    decreases named.len(),
{
    if named.len() > 0 {
        let rest = named.drop_last();
        let id = named.last();
        let before = shut_down(rest, running);
        let all = shut_down(named, running);
        shut_down_exactly_once(rest, running);
        assert(named =~= rest.push(id));
        assert forall|name: Seq<char>| named.contains(name) == (rest.contains(name) || name
            == id) by {
            if rest.contains(name) {
                let k = choose|k: int| 0 <= k < rest.len() && rest[k] == name;
                assert(named[k] == name);
            }
            assert(named[rest.len() as int] == id);
            if named.contains(name) {
                let k = choose|k: int| 0 <= k < named.len() && named[k] == name;
                if k < rest.len() {
                    assert(rest[k] == name);
                }
            }
        }
        assert forall|name: Seq<char>| #[trigger] all.contains(name) == (before.contains(name) || (
        name == id && running.contains(id))) by {
            if running.contains(id) && !rest.contains(id) {
                assert(all == before.push(id));
                if before.contains(name) {
                    let k = choose|k: int| 0 <= k < before.len() && before[k] == name;
                    assert(all[k] == name);
                }
                assert(all[before.len() as int] == id);
                if all.contains(name) {
                    let k = choose|k: int| 0 <= k < all.len() && all[k] == name;
                    if k < before.len() {
                        assert(before[k] == name);
                    }
                }
            }
        }
        if running.contains(id) && !rest.contains(id) {
            assert(!before.contains(id));
        }
    }
}

/// Terminals are shut down in the order in which they were named: before one is, those
/// that were named before it are.
pub proof fn shut_down_in_order(named: Seq<Seq<char>>, running: Set<Seq<char>>)
    ensures
        ({
            let stopped = shut_down(named, running);
            forall|i: int, j: int, b: int|
                0 <= i < j < stopped.len() && 0 <= b < named.len() && #[trigger] named[b]
                    == #[trigger] stopped[j] ==> named.take(b).contains(#[trigger] stopped[i])
        }),
    decreases named.len(),
{
    if named.len() > 0 {
        let rest = named.drop_last();
        let id = named.last();
        let before = shut_down(rest, running);
        let stopped = shut_down(named, running);
        shut_down_in_order(rest, running);
        shut_down_exactly_once(rest, running);
        shut_down_exactly_once(named, running);
        assert forall|i: int, j: int, b: int|
            0 <= i < j < stopped.len() && 0 <= b < named.len() && #[trigger] named[b]
                == #[trigger] stopped[j] implies named.take(b).contains(
            #[trigger] stopped[i],
        ) by {
            assert(stopped[i] == before[i]);
            assert(before.contains(before[i]));
            assert(rest.contains(before[i]));
            let a = choose|a: int| 0 <= a < rest.len() && rest[a] == before[i];
            if b == named.len() - 1 {
                assert(named.take(b)[a] == stopped[i]);
            } else {
                assert(rest[b] == named[b]);
                if j < before.len() {
                    assert(stopped[j] == before[j]);
                    assert(rest.take(b) =~= named.take(b));
                } else {
                    assert(rest.contains(id));
                }
            }
        }
    }
}

/// The names that are read are the names that stand there.
pub proof fn names_are_read_in_place(strings: Seq<String>, i: int)
    requires
        0 <= i < strings.len(),
    ensures
        texts(strings).len() == strings.len(),
        texts(strings)[i] == strings[i]@,
{
}

} // verus!
