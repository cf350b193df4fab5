//! Back ends that run sandboxes, and the clients that reach them.
use crate::types::ids::SandboxId;
use crate::types::sandbox::{ExecEvent, ExecHandle, SandboxProbe};
use vstd::prelude::*;

verus! {

/// The memory of a host's guests at one moment, summed. Shared pages are charged in fractions
/// to those who share them (`pss`) or in full to each (`rss`).
#[derive(Clone, Copy, Debug, PartialEq, Eq, Structural)]
pub struct GuestMemoryStats {
    /// Of the sandboxes for which memory is reserved.
    pub pss_bytes: u64,
    pub rss_bytes: u64,
    /// How many of them could be measured.
    pub sampled: u32,
    /// Of the sandboxes that are parked: in memory, with nothing reserved.
    pub parked_pss_bytes: u64,
    pub parked_rss_bytes: u64,
    pub parked_sampled: u32,
}

impl Default for GuestMemoryStats {
    fn default() -> (res: GuestMemoryStats)
        ensures
            res == (GuestMemoryStats {
                pss_bytes: 0,
                rss_bytes: 0,
                sampled: 0,
                parked_pss_bytes: 0,
                parked_rss_bytes: 0,
                parked_sampled: 0,
            }),
    {
        GuestMemoryStats {
            pss_bytes: 0,
            rss_bytes: 0,
            sampled: 0,
            parked_pss_bytes: 0,
            parked_rss_bytes: 0,
            parked_sampled: 0,
        }
    }
}

/// Where the memory of a sandbox that is being moved can be read.
#[derive(Clone, Debug, PartialEq, Eq)]
pub struct PostCopySourceView {
    pub fc_pid: u32,
    /// The directory that holds the file under the guest's memory.
    pub uffd_base_dir: String,
}

/// A browser that was started.
#[derive(Clone, Debug, PartialEq, Eq)]
pub struct BrowserStart {
    /// The port in the guest on which its screen is served.
    pub port: u16,
    /// What seems wrong with it. The start counts as done all the same.
    pub warning: Option<String>,
}

/// The port of the shell in the guest.
pub const SHELL_PORT: u16 = 7681;

/// The port of the browser's screen in the guest.
pub const BROWSER_PORT: u16 = 5900;

impl BrowserStart {
    /// A browser on the usual port.
    pub fn usual() -> (res: BrowserStart)
        ensures
            res.port == BROWSER_PORT,
            res.warning is None,
    {
        BrowserStart { port: BROWSER_PORT, warning: None }
    }
}

/// What a refresh of the agent in the guest came to.
#[derive(Clone, Copy, Debug, PartialEq, Eq, Structural)]
pub enum AgentRefresh {
    /// It ran the current generation already.
    UpToDate,
    /// It was replaced by the current generation.
    Restarted,
}

/// How a harness in the guest reaches the host.
#[derive(Clone, Copy, Debug, PartialEq, Eq, Structural)]
pub enum HarnessDial {
    Vsock,
    HostTcp,
}

impl Default for HarnessDial {
    fn default() -> (res: HarnessDial)
        ensures
            res == HarnessDial::Vsock,
    {
        HarnessDial::Vsock
    }
}

/// Whether `id` is in `ids`.
fn contains_id(ids: &Vec<SandboxId>, id: SandboxId) -> (res: bool)
    ensures
        res == ids@.contains(id),
{
    let mut i: usize = 0;
    while i < ids.len()
        invariant
            i <= ids.len(),
            forall|j: int| 0 <= j < i ==> ids@[j] != id,
        decreases ids.len() - i,
    {
        if ids[i] == id {
            return true;
        }
        i += 1;
    }
    false
}

/// The probe of a sandbox by a back end that has only its list to go by: what is listed counts
/// as alive, and no control socket is asked.
pub fn probe_from_list(listed: &Vec<SandboxId>, id: SandboxId) -> (res: SandboxProbe)
    ensures
        res.known_to_backend == listed@.contains(id),
        res.process_alive == res.known_to_backend,
        res.control_alive is None,
{
    let known_to_backend = contains_id(listed, id);
    SandboxProbe { known_to_backend, process_alive: known_to_backend, control_alive: None }
}

/// What has come of a command so far.
#[verifier::ext_equal]
pub ghost struct Drained {
    pub stdout: Seq<u8>,
    pub stderr: Seq<u8>,
    pub exit_status: Option<i32>,
    /// The last event was terminal.
    pub done: bool,
}

impl Drained {
    /// Nothing has come yet.
    pub open spec fn start() -> Drained {
        Drained { stdout: Seq::empty(), stderr: Seq::empty(), exit_status: None, done: false }
    }

    /// After one more event. Nothing counts after a terminal one.
    pub open spec fn after(self, event: ExecEvent) -> Drained {
        if self.done {
            self
        } else {
            match event {
                ExecEvent::Stdout(b) => Drained { stdout: self.stdout + b@, ..self },
                ExecEvent::Stderr(b) => Drained { stderr: self.stderr + b@, ..self },
                ExecEvent::Exit(s) => Drained { exit_status: s, done: true, ..self },
                ExecEvent::Refused(_) => Drained { done: true, ..self },
            }
        }
    }

    /// After a row of events.
    pub open spec fn after_all(self, events: Seq<ExecEvent>) -> Drained
        decreases events.len(),
    {
        if events.len() == 0 {
            self
        } else {
            self.after_all(events.drop_last()).after(events.last())
        }
    }
}

/// Gathers the events of a command into one result.
#[derive(Debug)]
pub struct ExecDrain {
    pub stdout: Vec<u8>,
    pub stderr: Vec<u8>,
    pub exit_status: Option<i32>,
    pub done: bool,
}

impl View for ExecDrain {
    type V = Drained;

    open spec fn view(&self) -> Drained {
        Drained {
            stdout: self.stdout@,
            stderr: self.stderr@,
            exit_status: self.exit_status,
            done: self.done,
        }
    }
}

impl ExecDrain {
    /// Nothing has come yet.
    pub fn new() -> (res: ExecDrain)
        ensures
            res@ == Drained::start(),
    {
        ExecDrain { stdout: Vec::new(), stderr: Vec::new(), exit_status: None, done: false }
    }

    /// Takes one event, and says whether it was the last.
    pub fn take(&mut self, event: ExecEvent) -> (res: bool)
        ensures
            final(self)@ == old(self)@.after(event),
            res == final(self)@.done,
    {
        if !self.done {
            match event {
                ExecEvent::Stdout(b) => {
                    self.stdout.extend_from_slice(b.as_slice());
                },
                ExecEvent::Stderr(b) => {
                    self.stderr.extend_from_slice(b.as_slice());
                },
                ExecEvent::Exit(s) => {
                    self.exit_status = s;
                    self.done = true;
                },
                ExecEvent::Refused(_) => {
                    self.done = true;
                },
            }
        }
        self.done
    }

    /// The whole result. A command whose events ended early has no exit status.
    pub fn finish(self, sandbox_id: SandboxId, exec_id: String) -> (res: ExecHandle)
        ensures
            res.sandbox_id == sandbox_id,
            res.exec_id == exec_id,
            res.stdout@ == self@.stdout,
            res.stderr@ == self@.stderr,
            res.exit_status == self@.exit_status,
    {
        ExecHandle {
            sandbox_id,
            exec_id,
            stdout: self.stdout,
            stderr: self.stderr,
            exit_status: self.exit_status,
        }
    }
}

/// What comes after a terminal event changes nothing.
pub proof fn terminal_event_ends_the_result(
    before: Seq<ExecEvent>,
    last: ExecEvent,
    later: Seq<ExecEvent>,
)
    requires
        last.terminal(),
    ensures
        Drained::start().after_all(before.push(last) + later) == Drained::start().after_all(
            before.push(last),
        ),
    decreases later.len(),
{
    let upto = before.push(last);
    assert(upto.drop_last() =~= before);
    if later.len() == 0 {
        assert(upto + later =~= upto);
    } else {
        terminal_event_ends_the_result(before, last, later.drop_last());
        assert((upto + later).drop_last() =~= upto + later.drop_last());
    }
}

/// Without a terminal event there is no exit status.
pub proof fn cut_off_result_has_no_status(events: Seq<ExecEvent>)
    requires
        forall|i: int| 0 <= i < events.len() ==> !(#[trigger] events[i]).terminal(),
    ensures
        Drained::start().after_all(events).exit_status is None,
        !Drained::start().after_all(events).done,
    decreases events.len(),
{
    if events.len() > 0 {
        let fewer = events.drop_last();
        assert forall|i: int| 0 <= i < fewer.len() implies !(#[trigger] fewer[i]).terminal() by {
            assert(!events[i].terminal());
        }
        cut_off_result_has_no_status(fewer);
        assert(!events[events.len() - 1].terminal());
    }
}

/// The payloads of all events on one stream, from the first on: standard error if `err`, else
/// standard output.
pub open spec fn payloads(events: Seq<ExecEvent>, err: bool) -> Seq<u8>
    decreases events.len(),
{
    if events.len() == 0 {
        Seq::empty()
    } else {
        let rest = payloads(events.drop_first(), err);
        match events[0] {
            ExecEvent::Stdout(b) => if err {
                rest
            } else {
                b@ + rest
            },
            ExecEvent::Stderr(b) => if err {
                b@ + rest
            } else {
                rest
            },
            _ => rest,
        }
    }
}

/// The payloads of two rows of events are those of the first and then those of the second.
proof fn payloads_add_up(a: Seq<ExecEvent>, b: Seq<ExecEvent>, err: bool)
    ensures
        payloads(a + b, err) == payloads(a, err) + payloads(b, err),
    decreases a.len(),
{
    if a.len() == 0 {
        assert(a + b =~= b);
        assert(payloads(a, err) + payloads(b, err) =~= payloads(b, err));
    } else {
        payloads_add_up(a.drop_first(), b, err);
        assert((a + b).drop_first() =~= a.drop_first() + b);
        assert(payloads(a + b, err) =~= payloads(a, err) + payloads(b, err));
    }
}

/// The whole output is kept: before the end of a command its standard output is that of all its
/// events, in order, and so is its standard error.
pub proof fn all_output_is_gathered(events: Seq<ExecEvent>)
    requires
        forall|i: int|
            0 <= i < events.len() ==> !((#[trigger] events[i]) is Exit) && !(events[i] is Refused),
    ensures
        Drained::start().after_all(events).stdout == payloads(events, false),
        Drained::start().after_all(events).stderr == payloads(events, true),
        Drained::start().after_all(events).exit_status is None,
        !Drained::start().after_all(events).done,
    decreases events.len(),
{
    if events.len() > 0 {
        let fewer = events.drop_last();
        let last = events.last();
        assert forall|i: int| 0 <= i < fewer.len() implies !((#[trigger] fewer[i]) is Exit) && !(
        fewer[i] is Refused) by {
            assert(fewer[i] == events[i]);
        }
        all_output_is_gathered(fewer);
        assert(events =~= fewer + seq![last]);
        payloads_add_up(fewer, seq![last], false);
        payloads_add_up(fewer, seq![last], true);
        assert(seq![last].drop_first() =~= Seq::<ExecEvent>::empty());
        reveal_with_fuel(payloads, 2);
        assert(events[events.len() - 1] == last);
        let now = Drained::start().after_all(events);
        assert(now.stdout =~= payloads(events, false));
        assert(now.stderr =~= payloads(events, true));
    }
}

/// The end of a command: an exit gives its status, a refusal gives none; both keep the output and
/// end the result.
pub proof fn the_end_gives_the_status(events: Seq<ExecEvent>, status: Option<i32>, why: String)
    requires
        forall|i: int|
            0 <= i < events.len() ==> !((#[trigger] events[i]) is Exit) && !(events[i] is Refused),
    ensures
        ({
            let exited = Drained::start().after_all(events.push(ExecEvent::Exit(status)));
            let refused = Drained::start().after_all(events.push(ExecEvent::Refused(why)));
            &&& exited.exit_status == status && exited.done
            &&& exited.stdout == payloads(events, false) && exited.stderr == payloads(events, true)
            &&& refused.exit_status is None && refused.done
            &&& refused.stdout == payloads(events, false) && refused.stderr == payloads(
                events,
                true,
            )
        }),
{
    all_output_is_gathered(events);
    assert(events.push(ExecEvent::Exit(status)).drop_last() =~= events);
    assert(events.push(ExecEvent::Refused(why)).drop_last() =~= events);
}

/// An event ends the result exactly if it is an exit or a refusal.
pub proof fn exit_and_refusal_are_terminal(e: ExecEvent)
    ensures
        e.terminal() <==> !(e is Stdout) && !(e is Stderr),
        !Drained::start().done && (Drained::start().after(e).done <==> e.terminal()),
{
}

} // verus!
