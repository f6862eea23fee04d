//! Outbound connections: which attempts a dial is made of, and how the race
//! between them is decided.

use vstd::prelude::*;
use vstd::string::StringExecFns;

verus! {

/// A socket address that a name was resolved to.
#[derive(Debug, Clone, Copy, PartialEq, Eq)]
pub enum Endpoint {
    /// An IPv4 address, as the number its four octets denote, and a port.
    V4(u32, u16),
    /// An IPv6 address, as the number its sixteen octets denote, and a port.
    V6(u128, u16),
}

/// The address family of a socket.
#[derive(Debug, Clone, Copy, PartialEq, Eq)]
pub enum Family {
    V4,
    V6,
}

impl Endpoint {
    /// The family of the socket that can connect to this address.
    pub open spec fn spec_family(self) -> Family {
        match self {
            Endpoint::V4(_, _) => Family::V4,
            Endpoint::V6(_, _) => Family::V6,
        }
    }

    /// The family of the socket that can connect to this address.
    #[verifier::when_used_as_spec(spec_family)]
    pub fn family(self) -> (family: Family)
        ensures
            family == self.spec_family(),
    {
        match self {
            Endpoint::V4(_, _) => Family::V4,
            Endpoint::V6(_, _) => Family::V6,
        }
    }
}

/// One attempt to connect: the socket to create, the local address to bind
/// it to, if any, and the address to connect it to.
#[derive(Debug, Clone, Copy, PartialEq, Eq)]
pub struct Attempt {
    pub family: Family,
    pub bind: Option<Endpoint>,
    pub target: Endpoint,
}

/// Why a dial gave no connection.
#[derive(Debug, Clone, PartialEq, Eq)]
pub enum DialError {
    /// The name was resolved to no address at all.
    AddrNotAvailable,
    /// Every attempt failed; holds the message of the one that failed last.
    Failed(String),
}

/// The mathematical value of a [`DialError`].
pub enum DialFault {
    AddrNotAvailable,
    Failed(Seq<char>),
}

impl View for DialError {
    type V = DialFault;

    open spec fn view(&self) -> DialFault {
        match self {
            DialError::AddrNotAvailable => DialFault::AddrNotAvailable,
            DialError::Failed(message) => DialFault::Failed(message@),
        }
    }
}

impl DialFault {
    /// The failure as text.
    pub open spec fn text(self) -> Seq<char> {
        match self {
            DialFault::AddrNotAvailable => "address not available"@,
            DialFault::Failed(message) => message,
        }
    }
}

impl DialError {
    /// The failure as text, for a log or for the client.
    pub fn to_string(&self) -> (text: String)
        ensures
            text@ == self@.text(),
    {
        match self {
            DialError::AddrNotAvailable => String::from_str("address not available"),
            DialError::Failed(message) => message.clone(),
        }
    }
}

/// How one attempt ended.
#[derive(Debug, Clone, PartialEq, Eq)]
pub enum Outcome {
    Connected,
    /// The attempt failed, with this message.
    Failed(String),
}

/// The mathematical value of an [`Outcome`].
pub enum Ending {
    Connected,
    Failed(Seq<char>),
}

impl View for Outcome {
    type V = Ending;

    open spec fn view(&self) -> Ending {
        match self {
            Outcome::Connected => Ending::Connected,
            Outcome::Failed(message) => Ending::Failed(message@),
        }
    }
}

/// What the race has come to after an attempt ended.
#[derive(Debug, Clone, PartialEq, Eq)]
pub enum Verdict {
    /// Other attempts are still running, and none has connected yet.
    Pending,
    /// The attempt that just ended is the first to connect: its connection
    /// is the dial's, and the attempts still running are to be cancelled.
    Won,
    /// The attempt that just ended was the last, and none has connected.
    Lost(DialError),
    /// The race had been decided before this attempt ended.
    Over,
}

/// The mathematical value of a [`Verdict`].
pub enum Standing {
    Pending,
    Won,
    Lost(DialFault),
    Over,
}

impl View for Verdict {
    type V = Standing;

    open spec fn view(&self) -> Standing {
        match self {
            Verdict::Pending => Standing::Pending,
            Verdict::Won => Standing::Won,
            Verdict::Lost(e) => Standing::Lost(e@),
            Verdict::Over => Standing::Over,
        }
    }
}

/// A race between the attempts of one dial: the first that connects wins.
#[derive(Debug, Clone, PartialEq, Eq)]
pub struct Race {
    attempts: Vec<Attempt>,
    running: usize,
}

/// The mathematical value of a [`Race`]: its attempts, and how many of them
/// are still running. A race that has been decided has none.
pub struct Heat {
    pub attempts: Seq<Attempt>,
    pub running: nat,
}

impl View for Race {
    type V = Heat;

    closed spec fn view(&self) -> Heat {
        Heat { attempts: self.attempts@, running: self.running as nat }
    }
}

/// The race after one of its attempts has ended, and what it has come to.
pub open spec fn settled(heat: Heat, ending: Ending) -> (Heat, Standing) {
    let decided = Heat { attempts: heat.attempts, running: 0 };
    if heat.running == 0 {
        (heat, Standing::Over)
    } else {
        match ending {
            Ending::Connected => (decided, Standing::Won),
            Ending::Failed(message) => if heat.running == 1 {
                (decided, Standing::Lost(DialFault::Failed(message)))
            } else {
                (
                    Heat { attempts: heat.attempts, running: (heat.running - 1) as nat },
                    Standing::Pending,
                )
            },
        }
    }
}

impl Race {
    /// Whether the race is as it is made: no more attempts run than it has.
    pub open spec fn wf(&self) -> bool {
        self@.running <= self@.attempts.len()
    }

    /// A race in which all of `attempts` run.
    pub fn start(attempts: Vec<Attempt>) -> (race: Race)
        ensures
            race.wf(),
            race@ == (Heat { attempts: attempts@, running: attempts@.len() }),
    {
        let running = attempts.len();
        Race { attempts, running }
    }

    /// The attempts of the race, one for each address that the name was
    /// resolved to, in the order of the addresses.
    pub fn attempts(&self) -> (attempts: &Vec<Attempt>)
        ensures
            attempts@ == self@.attempts,
    {
        &self.attempts
    }

    /// The number of attempts that are still running.
    pub fn running(&self) -> (running: usize)
        ensures
            running == self@.running,
    {
        self.running
    }

    /// Takes note that one of the running attempts has ended, and says what
    /// the race has come to.
    pub fn settle(&mut self, outcome: Outcome) -> (verdict: Verdict)
        ensures
            (final(self)@, verdict@) == settled(old(self)@, outcome@),
            old(self).wf() ==> final(self).wf(),
    {
        if self.running == 0 {
            return Verdict::Over;
        }
        match outcome {
            Outcome::Connected => {
                self.running = 0;
                Verdict::Won
            },
            Outcome::Failed(message) => {
                self.running = self.running - 1;
                if self.running == 0 {
                    Verdict::Lost(DialError::Failed(message))
                } else {
                    Verdict::Pending
                }
            },
        }
    }
}

/// What a race comes to when its attempts end in the order of `endings`:
/// the standing after the last of them.
pub open spec fn run(heat: Heat, endings: Seq<Ending>) -> (Heat, Standing)
    decreases endings.len(),
{
    if endings.len() == 0 {
        (heat, Standing::Pending)
    } else {
        let before = run(heat, endings.drop_last());
        if before.1 == Standing::Pending {
            settled(before.0, endings.last())
        } else {
            (before.0, before.1)
        }
    }
}

/// Whether one of the attempts connected.
pub open spec fn any_connected(endings: Seq<Ending>) -> bool {
    exists|i: int| 0 <= i < endings.len() && endings[i] == Ending::Connected
}

/// While fewer attempts have ended than the race has, and none of them has
/// connected, the race is pending, with the others still running.
pub proof fn lemma_run_pending(heat: Heat, endings: Seq<Ending>)
    requires
        endings.len() < heat.running,
        !any_connected(endings),
    ensures
        run(heat, endings) == (
            Heat { attempts: heat.attempts, running: (heat.running - endings.len()) as nat },
            Standing::Pending,
        ),
    decreases endings.len(),
{
    if endings.len() > 0 {
        let head = endings.drop_last();
        assert forall|i: int| 0 <= i < head.len() implies head[i] != Ending::Connected by {
            assert(endings[i] == head[i]);
        }
        lemma_run_pending(heat, head);
        assert(endings.last() == endings[endings.len() - 1]);
    }
}

/// A dial whose attempts all end succeeds if and only if one of them
/// connects: the race is won as soon as the first one connects, whatever
/// the others do, and lost, with the failure of the last attempt, only when
/// all have failed.
pub proof fn law_race(heat: Heat, endings: Seq<Ending>)
    requires
        heat.running >= 1,
        endings.len() == heat.running,
    ensures
        any_connected(endings) <==> run(heat, endings).1 == Standing::Won,
        !any_connected(endings) <==> run(heat, endings).1 == Standing::Lost(
            DialFault::Failed(endings.last()->Failed_0),
        ),
{
    if any_connected(endings) {
        lemma_run_decided(heat, endings);
    } else {
        let head = endings.drop_last();
        assert forall|i: int| 0 <= i < head.len() implies head[i] != Ending::Connected by {
            assert(endings[i] == head[i]);
        }
        assert(!any_connected(head));
        lemma_run_pending(heat, head);
        assert(endings.last() == endings[endings.len() - 1]);
    }
}

/// Once an attempt has connected the race is won, and stays won whatever
/// ends after it.
pub proof fn lemma_run_decided(heat: Heat, endings: Seq<Ending>)
    requires
        endings.len() <= heat.running,
        any_connected(endings),
    ensures
        run(heat, endings).1 == Standing::Won,
    decreases endings.len(),
{
    let head = endings.drop_last();
    if any_connected(head) {
        lemma_run_decided(heat, head);
    } else {
        lemma_run_pending(heat, head);
        let i = choose|i: int| 0 <= i < endings.len() && endings[i] == Ending::Connected;
        if i < head.len() {
            assert(head[i] == Ending::Connected);
        }
    }
}

} // verus!
