//! The consumers' side of a satellite link.
//!
//! Consumers hand requests to a link through a bounded mailbox and never wait
//! for room: a saturated or dead link refuses at once. Withdrawals travel on a
//! queue of their own that refuses nothing, so that a busy link cannot keep a
//! departed consumer registered.

use crate::hub::registry::ProxySubscription;
use crate::hub::relay::{Unsubscribe, WithdrawalReceipt};
use crate::hub::requests::ReplyId;
use crate::hub::session::{RelayRequest, SatelliteSpawn, RELAY_COMMAND_TIMEOUT_SECONDS};
use crate::ids::{ClientId, SatelliteHost};
use crate::mailbox::{after_send, Mailboxes, Outbound, SendOutcome};
use crate::text::{
    before, comes_before, decimal, decimal_text, lemma_before_is_strict,
    lemma_before_is_total, lemma_before_is_transitive,
};
use crate::wire::{Command, CommandResult, ErrorCode, FrameKind, SpawnError, SpawnResult, TerminalInput};
use vstd::prelude::*;
use vstd::string::*;

verus! {

/// Most requests that may wait for one link.
pub const RELAY_MAILBOX: usize = 64;

/// What waits for one link.
pub struct RelayMailbox {
    /// Requests, oldest first; bounded.
    pub requests: Vec<RelayRequest>,
    /// Withdrawals, oldest first; never refused.
    pub unsubscribes: Vec<Unsubscribe>,
    /// Whether the link still drains the mailbox.
    pub open: bool,
}

/// Names a satellite link and orders what is issued toward it.
pub struct RelayHandle {
    /// The satellite.
    pub host: SatelliteHost,
    /// The next issue-order token.
    pub next_token: u64,
}

/// How the wait for a command ended.
pub enum CommandWait {
    /// With the link's answer.
    Answered(CommandResult),
    /// The link went away without answering.
    Dropped,
    /// The time was up.
    TimedOut,
}

/// How the wait for a spawn ended.
pub enum SpawnWait {
    /// With the link's answer.
    Answered(SpawnResult),
    /// The link went away without answering.
    Dropped,
    /// The time was up.
    TimedOut,
}

/// What an offered request comes to.
pub open spec fn offer_outcome(mailbox: RelayMailbox) -> SendOutcome {
    if !mailbox.open {
        SendOutcome::Closed
    } else if mailbox.requests@.len() >= RELAY_MAILBOX {
        SendOutcome::Full
    } else {
        SendOutcome::Accepted
    }
}

/// `after` is `before` once `request` was offered.
pub open spec fn offered(before: RelayMailbox, after: RelayMailbox, request: RelayRequest) -> bool {
    &&& after.unsubscribes == before.unsubscribes
    &&& after.open == before.open
    &&& after.requests@ == (if offer_outcome(before) == SendOutcome::Accepted {
        before.requests@.push(request)
    } else {
        before.requests@
    })
}

impl RelayMailbox {
    /// An empty mailbox of a live link.
    pub fn new() -> (mailbox: Self)
        ensures
            mailbox.requests@.len() == 0,
            mailbox.unsubscribes@.len() == 0,
            mailbox.open,
    {
        RelayMailbox { requests: Vec::new(), unsubscribes: Vec::new(), open: true }
    }

    /// Queue `request` unless the link is saturated or gone.
    pub fn try_send(&mut self, request: RelayRequest) -> (outcome: SendOutcome)
        ensures
            outcome == offer_outcome(*old(self)),
            offered(*old(self), *final(self), request),
    {
        if !self.open {
            return SendOutcome::Closed;
        }
        if self.requests.len() >= RELAY_MAILBOX {
            return SendOutcome::Full;
        }
        self.requests.push(request);
        SendOutcome::Accepted
    }

    /// Queue a withdrawal; only a link that is gone drops it, and its registry
    /// with it.
    pub fn withdraw(&mut self, unsubscribe: Unsubscribe)
        ensures
            final(self).requests == old(self).requests,
            final(self).open == old(self).open,
            final(self).unsubscribes@ == (if old(self).open {
                old(self).unsubscribes@.push(unsubscribe)
            } else {
                old(self).unsubscribes@
            }),
    {
        if self.open {
            self.unsubscribes.push(unsubscribe);
        }
    }
}

/// The text of a refusal by a saturated link.
pub open spec fn saturated_text(host: Seq<char>) -> Seq<char> {
    "satellite "@ + host + " link is saturated; retry"@
}

/// The text of a refusal by a link that is gone.
pub open spec fn down_text(host: Seq<char>) -> Seq<char> {
    "satellite "@ + host + " link is down"@
}

/// The category and text of a refusal, if `outcome` is one.
pub open spec fn is_refusal(
    outcome: SendOutcome,
    host: Seq<char>,
    code: ErrorCode,
    message: Seq<char>,
) -> bool {
    match outcome {
        SendOutcome::Accepted => false,
        SendOutcome::Full => code == ErrorCode::ResourceExhausted && message == saturated_text(
            host,
        ),
        SendOutcome::Closed => code == ErrorCode::SatelliteUnreachable && message == down_text(
            host,
        ),
    }
}

/// Why a link refused, in one word for a log.
pub fn refusal_reason(outcome: SendOutcome) -> (reason: &'static str)
    ensures
        reason@ == (match outcome {
            SendOutcome::Accepted => ""@,
            SendOutcome::Full => "mailbox full"@,
            SendOutcome::Closed => "link task gone"@,
        }),
{
    match outcome {
        SendOutcome::Accepted => "",
        SendOutcome::Full => "mailbox full",
        SendOutcome::Closed => "link task gone",
    }
}

/// The token that follows `token`: the next number, and 0 after the last.
pub open spec fn token_after(token: u64) -> u64 {
    if token == u64::MAX {
        0
    } else {
        (token + 1) as u64
    }
}

/// The token that a handle whose next one is `first` issues after `n` others.
pub open spec fn nth_token(first: u64, n: nat) -> u64
    decreases n,
{
    if n == 0 {
        first
    } else {
        token_after(nth_token(first, (n - 1) as nat))
    }
}

/// As long as the numbers last, a handle issues distinct and increasing tokens:
/// of two, the later one is greater.
pub proof fn law_later_tokens_are_greater(first: u64, earlier: nat, later: nat)
    requires
        earlier < later,
        first + later <= u64::MAX,
    ensures
        nth_token(first, earlier) < nth_token(first, later),
        nth_token(first, earlier) == first + earlier,
        nth_token(first, later) == first + later,
    decreases later,
{
    if earlier > 0 {
        law_later_tokens_are_greater(first, (earlier - 1) as nat, earlier);
    }
    if later > earlier + 1 {
        law_later_tokens_are_greater(first, earlier, (later - 1) as nat);
    }
}

impl RelayHandle {
    /// This handle once it issued a token.
    pub open spec fn issued(self) -> Self {
        RelayHandle { next_token: token_after(self.next_token), ..self }
    }

    /// The handle of a fresh link to `host`.
    pub fn new(host: SatelliteHost) -> (handle: Self)
        ensures
            handle.host == host,
            handle.next_token == 1,
    {
        RelayHandle { host, next_token: 1 }
    }

    /// Take the next issue-order token.
    pub fn next_seq(&mut self) -> (seq: u64)
        ensures
            seq == old(self).next_token,
            *final(self) == old(self).issued(),
    {
        let seq = self.next_token;
        self.next_token = self.next_token.wrapping_add(1);
        seq
    }

    fn refusal(&self, outcome: SendOutcome) -> (refusal: Option<(ErrorCode, String)>)
        ensures
            match refusal {
                Some((code, message)) => is_refusal(outcome, self.host.name@, code, message@),
                None => outcome == SendOutcome::Accepted,
            },
    {
        match outcome {
            SendOutcome::Accepted => None,
            SendOutcome::Full => Some(
                (
                    ErrorCode::ResourceExhausted,
                    "satellite ".to_owned().concat(self.host.name.as_str()).concat(
                        " link is saturated; retry",
                    ),
                ),
            ),
            SendOutcome::Closed => Some(
                (
                    ErrorCode::SatelliteUnreachable,
                    "satellite ".to_owned().concat(self.host.name.as_str()).concat(
                        " link is down",
                    ),
                ),
            ),
        }
    }

    /// Offer a command, stamping its rider with the issue order; the refusal of
    /// a saturated or dead link, which then registers nothing.
    pub fn offer_command(
        &mut self,
        mailbox: &mut RelayMailbox,
        command: Command,
        reply: ReplyId,
        subscribe: Option<ProxySubscription>,
    ) -> (refusal: Option<CommandResult>)
        ensures
            *final(self) == (if subscribe is Some {
                old(self).issued()
            } else {
                *old(self)
            }),
            ({
                let stamped = match subscribe {
                    Some(sub) => Some(ProxySubscription { seq: old(self).next_token, ..sub }),
                    None => None,
                };
                offered(
                    *old(mailbox),
                    *final(mailbox),
                    RelayRequest::Command { command, reply, subscribe: stamped },
                )
            }),
            match refusal {
                Some(CommandResult::Error { code, message }) => is_refusal(
                    offer_outcome(*old(mailbox)),
                    old(self).host.name@,
                    code,
                    message@,
                ),
                Some(_) => false,
                None => offer_outcome(*old(mailbox)) == SendOutcome::Accepted,
            },
    {
        let stamped = match subscribe {
            Some(sub) => {
                let seq = self.next_seq();
                Some(ProxySubscription { seq, ..sub })
            },
            None => None,
        };
        let outcome = mailbox.try_send(
            RelayRequest::Command { command, reply, subscribe: stamped },
        );
        match self.refusal(outcome) {
            Some((code, message)) => Some(CommandResult::Error { code, message }),
            None => None,
        }
    }

    /// What a consumer is told once its wait for a command ended.
    pub fn command_outcome(&self, wait: CommandWait) -> (result: CommandResult)
        ensures
            match wait {
                CommandWait::Answered(answer) => result == answer,
                CommandWait::Dropped => match result {
                    CommandResult::Error { code, message } => code
                        == ErrorCode::SatelliteUnreachable && message@ == "satellite "@
                        + self.host.name@ + " link dropped before the reply"@,
                    _ => false,
                },
                CommandWait::TimedOut => match result {
                    CommandResult::Error { code, message } => code
                        == ErrorCode::SatelliteUnreachable && message@ == "satellite "@
                        + self.host.name@ + " did not answer within "@ + decimal(
                        RELAY_COMMAND_TIMEOUT_SECONDS as nat,
                    ) + "s"@,
                    _ => false,
                },
            },
    {
        match wait {
            CommandWait::Answered(answer) => answer,
            CommandWait::Dropped => CommandResult::Error {
                code: ErrorCode::SatelliteUnreachable,
                message: "satellite ".to_owned().concat(self.host.name.as_str()).concat(
                    " link dropped before the reply",
                ),
            },
            CommandWait::TimedOut => CommandResult::Error {
                code: ErrorCode::SatelliteUnreachable,
                message: "satellite ".to_owned().concat(self.host.name.as_str()).concat(
                    " did not answer within ",
                ).concat(decimal_text(RELAY_COMMAND_TIMEOUT_SECONDS).as_str()).concat("s"),
            },
        }
    }

    /// Offer a spawn; the refusal of a saturated or dead link.
    pub fn offer_spawn(&self, mailbox: &mut RelayMailbox, spawn: SatelliteSpawn, reply: ReplyId) -> (refusal:
        Option<SpawnError>)
        ensures
            offered(*old(mailbox), *final(mailbox), RelayRequest::Spawn { spawn, reply }),
            match offer_outcome(*old(mailbox)) {
                SendOutcome::Accepted => refusal is None,
                SendOutcome::Full => match refusal {
                    Some(SpawnError::SpawnFailed(message)) => message@ == saturated_text(
                        self.host.name@,
                    ),
                    _ => false,
                },
                SendOutcome::Closed => match refusal {
                    Some(SpawnError::SatelliteUnreachable(message)) => message@ == down_text(
                        self.host.name@,
                    ),
                    _ => false,
                },
            },
    {
        let outcome = mailbox.try_send(RelayRequest::Spawn { spawn, reply });
        let refusal = self.refusal(outcome);
        match refusal {
            Some((_, message)) => match outcome {
                SendOutcome::Full => Some(SpawnError::SpawnFailed(message)),
                _ => Some(SpawnError::SatelliteUnreachable(message)),
            },
            None => None,
        }
    }

    /// What a consumer is told once its wait for a spawn ended.
    pub fn spawn_outcome(&self, wait: SpawnWait) -> (result: SpawnResult)
        ensures
            match wait {
                SpawnWait::Answered(answer) => result == answer,
                SpawnWait::Dropped => match result {
                    Err(SpawnError::SatelliteUnreachable(message)) => message@ == "satellite "@
                        + self.host.name@ + " link dropped before the spawn reply"@,
                    _ => false,
                },
                SpawnWait::TimedOut => match result {
                    Err(SpawnError::SatelliteUnreachable(message)) => message@ == "satellite "@
                        + self.host.name@ + " did not answer the spawn within "@ + decimal(
                        RELAY_COMMAND_TIMEOUT_SECONDS as nat,
                    ) + "s"@,
                    _ => false,
                },
            },
    {
        match wait {
            SpawnWait::Answered(answer) => answer,
            SpawnWait::Dropped => Err(
                SpawnError::SatelliteUnreachable(
                    "satellite ".to_owned().concat(self.host.name.as_str()).concat(
                        " link dropped before the spawn reply",
                    ),
                ),
            ),
            SpawnWait::TimedOut => Err(
                SpawnError::SatelliteUnreachable(
                    "satellite ".to_owned().concat(self.host.name.as_str()).concat(
                        " did not answer the spawn within ",
                    ).concat(decimal_text(RELAY_COMMAND_TIMEOUT_SECONDS).as_str()).concat("s"),
                ),
            ),
        }
    }

    /// Offer a frame that has no reply; a saturated or dead link drops it.
    pub fn forward(&self, mailbox: &mut RelayMailbox, frame: FrameKind) -> (outcome: SendOutcome)
        ensures
            outcome == offer_outcome(*old(mailbox)),
            offered(*old(mailbox), *final(mailbox), RelayRequest::Forward { frame }),
    {
        mailbox.try_send(RelayRequest::Forward { frame })
    }

    /// Offer a subscriber together with a frame. Nothing answers such a
    /// request, so a refusal goes to the consumer's mailbox.
    pub fn subscribe(
        &mut self,
        mailbox: &mut RelayMailbox,
        subscription: ProxySubscription,
        forward: FrameKind,
        consumers: &mut Mailboxes,
    )
        ensures
            *final(self) == old(self).issued(),
            offered(
                *old(mailbox),
                *final(mailbox),
                RelayRequest::Subscribe {
                    subscription: ProxySubscription { seq: old(self).next_token, ..subscription },
                    forward,
                },
            ),
            if offer_outcome(*old(mailbox)) == SendOutcome::Accepted {
                final(consumers)@ == old(consumers)@
            } else {
                exists|code: ErrorCode, message: String| #[trigger]
                    is_refusal(
                        offer_outcome(*old(mailbox)),
                        old(self).host.name@,
                        code,
                        message@,
                    ) && final(consumers)@ == after_send(
                        old(consumers)@,
                        subscription.mailbox,
                        Outbound::Frame(FrameKind::Error { request_id: None, code, message }),
                    )
            },
    {
        let seq = self.next_seq();
        let consumer = subscription.mailbox;
        let outcome = mailbox.try_send(
            RelayRequest::Subscribe {
                subscription: ProxySubscription { seq, ..subscription },
                forward,
            },
        );
        if let Some((code, message)) = self.refusal(outcome) {
            assert(is_refusal(outcome, old(self).host.name@, code, message@));
            consumers.try_send(
                consumer,
                Outbound::Frame(FrameKind::Error { request_id: None, code, message }),
            );
        }
    }

    /// Withdraw everything that `client` observes through this link.
    pub fn unsubscribe_client(&self, mailbox: &mut RelayMailbox, client: ClientId)
        ensures
            final(mailbox).requests == old(mailbox).requests,
            final(mailbox).open == old(mailbox).open,
            final(mailbox).unsubscribes@ == (if old(mailbox).open {
                old(mailbox).unsubscribes@.push(Unsubscribe::Client(client))
            } else {
                old(mailbox).unsubscribes@
            }),
    {
        mailbox.withdraw(Unsubscribe::Client(client));
    }

    /// Withdraw `client` from one terminal, stamped with the issue order.
    pub fn unsubscribe_terminal(
        &mut self,
        mailbox: &mut RelayMailbox,
        client: ClientId,
        terminal: u32,
    )
        ensures
            *final(self) == old(self).issued(),
            final(mailbox).requests == old(mailbox).requests,
            final(mailbox).open == old(mailbox).open,
            final(mailbox).unsubscribes@ == (if old(mailbox).open {
                old(mailbox).unsubscribes@.push(
                    Unsubscribe::Terminal { client, terminal, seq: old(self).next_token },
                )
            } else {
                old(mailbox).unsubscribes@
            }),
    {
        let seq = self.next_seq();
        mailbox.withdraw(Unsubscribe::Terminal { client, terminal, seq });
    }

    /// What a consumer is told once its wait for a withdrawal ended. A link
    /// that dropped the withdrawal has no registry that could still deliver.
    pub fn withdrawal_outcome(&self, wait: CommandWait, receipt: &mut WithdrawalReceipt) -> (result:
        CommandResult)
        ensures
            match wait {
                CommandWait::Answered(answer) => result == answer && *final(receipt) == *old(
                    receipt,
                ),
                CommandWait::Dropped => result is Done && *final(receipt) == *old(receipt),
                CommandWait::TimedOut => {
                    &&& final(receipt).outcome == Some(result)
                    &&& match old(receipt).outcome {
                        Some(settled) => result == settled,
                        None => match result {
                            CommandResult::Error { code, message } => code
                                == ErrorCode::SatelliteUnreachable && message@
                                == crate::hub::relay::withdrawal_cancelled_text(self.host.name@),
                            _ => false,
                        },
                    }
                },
            },
    {
        match wait {
            CommandWait::Answered(answer) => answer,
            CommandWait::Dropped => CommandResult::Done,
            CommandWait::TimedOut => receipt.expire(&self.host),
        }
    }
}

/// A label for a relayed frame that shows nothing of its payload.
pub fn frame_label(frame: &FrameKind) -> (label: &'static str)
    ensures
        label@ == (match *frame {
            FrameKind::Input { event: TerminalInput::Key(_), .. } => "INPUT_KEY"@,
            FrameKind::Input { event: TerminalInput::Mouse(_), .. } => "INPUT_MOUSE"@,
            FrameKind::Input { event: TerminalInput::Focus(_), .. } => "INPUT_FOCUS"@,
            FrameKind::Input { event: TerminalInput::Paste(_), .. } => "INPUT_PASTE"@,
            FrameKind::FrameAck { .. } => "FRAME_ACK"@,
            FrameKind::TerminalResize { .. } => "TERMINAL_RESIZE"@,
            FrameKind::SubscribeEvents { .. } => "SUBSCRIBE_EVENTS"@,
            _ => "other"@,
        }),
{
    match frame {
        FrameKind::Input { event, .. } => match event {
            TerminalInput::Key(_) => "INPUT_KEY",
            TerminalInput::Mouse(_) => "INPUT_MOUSE",
            TerminalInput::Focus(_) => "INPUT_FOCUS",
            TerminalInput::Paste(_) => "INPUT_PASTE",
        },
        FrameKind::FrameAck { .. } => "FRAME_ACK",
        FrameKind::TerminalResize { .. } => "TERMINAL_RESIZE",
        FrameKind::SubscribeEvents { .. } => "SUBSCRIBE_EVENTS",
        _ => "other",
    }
}

// ---- the links of a hub -----------------------------------------------------

/// The links of a hub, one per satellite.
pub struct HubRelays {
    /// The links, in the order of their satellites' names.
    pub handles: Vec<RelayHandle>,
}

/// Where the link to `host` stands among `handles`, or belongs: after every
/// link to a satellite that comes before it.
pub open spec fn place_of(handles: Seq<RelayHandle>, host: Seq<char>, k: int) -> bool {
    &&& 0 <= k <= handles.len()
    &&& forall|i: int| 0 <= i < k ==> before((#[trigger] handles[i]).host.name@, host)
    &&& k < handles.len() ==> !before(handles[k].host.name@, host)
}

/// The links once `handle` was added at its place `k`.
pub open spec fn linked(handles: Seq<RelayHandle>, handle: RelayHandle, k: int) -> Seq<
    RelayHandle,
> {
    if k < handles.len() && handles[k].host.name@ == handle.host.name@ {
        handles.update(k, handle)
    } else {
        handles.insert(k, handle)
    }
}

impl HubRelays {
    /// The links are in order, and so no two lead to one satellite.
    pub open spec fn wf(&self) -> bool {
        forall|i: int, j: int|
            0 <= i < j < self.handles@.len() ==> before(
                (#[trigger] self.handles@[i]).host.name@,
                (#[trigger] self.handles@[j]).host.name@,
            )
    }

    /// A hub without links.
    pub fn new() -> (relays: Self)
        ensures
            relays.wf(),
            relays.handles@.len() == 0,
    {
        HubRelays { handles: Vec::new() }
    }

    fn place(&self, host: &SatelliteHost) -> (k: usize)
        ensures
            place_of(self.handles@, host.name@, k as int),
    {
        let mut k: usize = 0;
        while k < self.handles.len()
            invariant
                k <= self.handles@.len(),
                forall|i: int|
                    0 <= i < k ==> before((#[trigger] self.handles@[i]).host.name@, host.name@),
            decreases self.handles@.len() - k,
        {
            if !comes_before(self.handles[k].host.name.as_str(), host.name.as_str()) {
                return k;
            }
            k += 1;
        }
        k
    }

    /// Add a link, replacing the one to the same satellite.
    pub fn insert(&mut self, handle: RelayHandle)
        requires
            old(self).wf(),
        ensures
            final(self).wf(),
            exists|k: int|
                place_of(old(self).handles@, handle.host.name@, k) && final(self).handles@
                    == #[trigger] linked(old(self).handles@, handle, k),
    {
        let k = self.place(&handle.host);
        let ghost all = self.handles@;
        let ghost host = handle.host.name@;
        if k < self.handles.len() && self.handles[k].host.same(&handle.host) {
            self.handles.set(k, handle);
        } else {
            self.handles.insert(k, handle);
        }
        proof {
            assert(self.handles@ =~= linked(all, handle, k as int));
            assert forall|i: int, j: int|
                0 <= i < j < self.handles@.len() implies before(
                (#[trigger] self.handles@[i]).host.name@,
                (#[trigger] self.handles@[j]).host.name@,
            ) by {
                if k < all.len() && all[k as int].host.name@ == host {
                    assert(all[i].host.name@ == self.handles@[i].host.name@);
                    assert(all[j].host.name@ == self.handles@[j].host.name@);
                } else {
                    lemma_room(all, host, k as int);
                    let from = if i < k {
                        i
                    } else {
                        i - 1
                    };
                    let to = if j < k {
                        j
                    } else {
                        j - 1
                    };
                    if i != k {
                        assert(self.handles@[i] == all[from]);
                    }
                    if j != k {
                        assert(self.handles@[j] == all[to]);
                    }
                }
            }
        }
    }

    /// Every link, in the order of the satellites' names.
    pub fn all(&self) -> (handles: &Vec<RelayHandle>)
        ensures
            *handles == self.handles,
    {
        &self.handles
    }

    /// The link to `host`.
    pub fn get(&self, host: &SatelliteHost) -> (handle: Option<&RelayHandle>)
        requires
            self.wf(),
        ensures
            match handle {
                Some(handle) => handle.host.name@ == host.name@ && exists|i: int|
                    0 <= i < self.handles@.len() && #[trigger] self.handles@[i] == *handle,
                None => forall|i: int|
                    0 <= i < self.handles@.len() ==> (#[trigger] self.handles@[i]).host.name@
                        != host.name@,
            },
    {
        let k = self.place(host);
        if k < self.handles.len() && self.handles[k].host.same(host) {
            return Some(&self.handles[k]);
        }
        proof {
            assert forall|i: int| 0 <= i < self.handles@.len() implies (
            #[trigger] self.handles@[i]).host.name@ != host.name@ by {
                lemma_before_is_strict(host.name@);
                if i > k {
                    lemma_room(self.handles@, host.name@, k as int);
                }
            }
        }
        None
    }
}

/// Where `host` belongs and has no link, it comes before every link that
/// follows.
proof fn lemma_room(handles: Seq<RelayHandle>, host: Seq<char>, k: int)
    requires
        forall|i: int, j: int|
            0 <= i < j < handles.len() ==> before(
                (#[trigger] handles[i]).host.name@,
                (#[trigger] handles[j]).host.name@,
            ),
        place_of(handles, host, k),
        k < handles.len() ==> handles[k].host.name@ != host,
    ensures
        forall|j: int| k <= j < handles.len() ==> before(host, (#[trigger] handles[j]).host.name@),
{
    if k < handles.len() {
        lemma_before_is_total(handles[k].host.name@, host);
        assert forall|j: int| k <= j < handles.len() implies before(
            host,
            (#[trigger] handles[j]).host.name@,
        ) by {
            if j > k {
                lemma_before_is_transitive(host, handles[k].host.name@, handles[j].host.name@);
            }
        }
    }
}

/// A link that was added is the one that is found, and every other satellite's
/// link stays.
pub proof fn law_the_newest_link_is_found(
    handles: Seq<RelayHandle>,
    handle: RelayHandle,
    k: int,
)
    requires
        place_of(handles, handle.host.name@, k),
    ensures
        linked(handles, handle, k)[k] == handle,
        forall|i: int|
            0 <= i < handles.len() && (#[trigger] handles[i]).host.name@ != handle.host.name@
                ==> linked(handles, handle, k).contains(handles[i]),
{
    let after = linked(handles, handle, k);
    assert forall|i: int|
        0 <= i < handles.len() && (#[trigger] handles[i]).host.name@
            != handle.host.name@ implies after.contains(handles[i]) by {
        if k < handles.len() && handles[k].host.name@ == handle.host.name@ {
            assert(after[i] == handles[i]);
        } else if i < k {
            assert(after[i] == handles[i]);
        } else {
            assert(after[i + 1] == handles[i]);
        }
    }
}

} // verus!
