use vstd::prelude::*;
use vstd::string::*;

use crate::addr::{host_address, host_text, is_candidate, is_octet, octet_from, router_host, router_host_spec, shuffled_candidates};
use crate::text::{chars_of, has_prefix, starts_with};

verus! {

/// How many candidate addresses one search probes at most.
pub const PROBE_LIMIT: usize = 100;

/// The subnet that the static configuration lives in.
pub struct Subnet {
    /// The first three octets, such as `192.168.50`.
    pub base: String,
    /// The router's address, such as `192.168.50.222`.
    pub router: String,
}

/// Where the switch to a static address stands. The caller performs each
/// [`Step`] and reports its outcome to the matching method.
pub enum ApplyState {
    /// The address used last time is being probed.
    Reusing { ip: String },
    /// The host `order[tried]` is being probed.
    Searching { order: Vec<u8>, tried: usize },
    /// The manual configuration for `ip` has been requested.
    Applying { ip: String },
    Finished,
}

/// What the caller does next.
pub enum Step {
    /// Ping the address and report whether it answered, to [`ApplyState::on_probe`].
    Probe(String),
    /// Configure the service with this address, and report whether the command
    /// succeeded, to [`ApplyState::on_command`].
    SetManual(String),
    /// The address is set: remember it for next time and report it.
    Persist(String),
    /// Every probed candidate answered: no free address was found.
    Exhausted,
    /// The configuration command failed.
    CommandFailed,
}

/// How many of `len` candidates a search probes.
pub open spec fn probe_budget(len: nat) -> nat {
    if len < PROBE_LIMIT {
        len
    } else {
        PROBE_LIMIT as nat
    }
}

/// Whether the address used last time is a dotted quad in the subnet `base`:
/// `base`, a dot, and one octet.
pub open spec fn reusable(base: Seq<char>, last: Option<String>) -> bool {
    last matches Some(ip) && has_prefix(ip@, base + seq!['.']) && is_octet(
        ip@.subrange(base.len() + 1 as int, ip@.len() as int),
    )
}

/// `st` and `step` begin a search over the candidates beside router host `router_last`,
/// in an order that holds each of them once.
pub open spec fn search_begun(base: Seq<char>, router_last: u8, st: ApplyState, step: Step) -> bool {
    &&& st matches ApplyState::Searching { order, tried } && tried == 0 && (forall|n: u8|
        order@.contains(n) <==> is_candidate(router_last, n)) && order@.no_duplicates()
        && (step matches Step::Probe(ip) && ip@ == host_text(base, order@[0]))
}

/// `st` and `step` configure the service with the address `ip`.
pub open spec fn applying(ip: Seq<char>, st: ApplyState, step: Step) -> bool {
    &&& st matches ApplyState::Applying { ip: a } && a@ == ip
    &&& step matches Step::SetManual(p) && p@ == ip
}

/// A search probes at most [`PROBE_LIMIT`] candidates: in every well-formed
/// state the candidate under probe has fewer than that many before it.
pub proof fn lemma_search_bounded(st: ApplyState)
    requires
        st.wf(),
    ensures
        st matches ApplyState::Searching { order, tried } ==> tried < PROBE_LIMIT && tried
            < order@.len(),
{
}

impl ApplyState {
    pub open spec fn wf(&self) -> bool {
        match self {
            ApplyState::Searching { order, tried } => tried < probe_budget(order@.len()),
            _ => true,
        }
    }

    /// Starts a search over the shuffled candidates of `net`.
    fn start_search(net: &Subnet) -> (r: (ApplyState, Step))
        ensures
            search_begun(net.base@, router_host_spec(net.router@), r.0, r.1),
            r.0.wf(),
    {
        let router_last = router_host(net.router.as_str());
        let order = shuffled_candidates(router_last);
        proof {
            if router_last != 2 {
                assert(is_candidate(router_last, 2u8));
                assert(order@.contains(2));
            } else {
                assert(is_candidate(router_last, 3u8));
                assert(order@.contains(3));
            }
        }
        let ip = host_address(net.base.as_str(), order[0]);
        (ApplyState::Searching { order, tried: 0 }, Step::Probe(ip))
    }

    /// Begins switching to a static address: the address used last time is
    /// probed again where it is a dotted quad in the subnet, else a search begins.
    pub fn begin(net: &Subnet, last: Option<String>) -> (r: (ApplyState, Step))
        ensures
            reusable(net.base@, last) ==> (r.0 matches ApplyState::Reusing { ip } && ip@
                == last->0@ && (r.1 matches Step::Probe(p) && p@ == last->0@)),
            !reusable(net.base@, last) ==> search_begun(
                net.base@,
                router_host_spec(net.router@),
                r.0,
                r.1,
            ),
            r.0.wf(),
    {
        proof {
            reveal_strlit(".");
        }
        let mut prefix = net.base.as_str().to_owned();
        prefix.append(".");
        assert(prefix@ =~= net.base@ + seq!['.']);
        match last {
            Some(ip) => {
                if starts_with(ip.as_str(), prefix.as_str()) {
                    let cs = chars_of(ip.as_str());
                    let plen = prefix.as_str().unicode_len();
                    if octet_from(&cs, plen) {
                        assert(reusable(net.base@, last));
                        let p = ip.clone();
                        (ApplyState::Reusing { ip }, Step::Probe(p))
                    } else {
                        ApplyState::start_search(net)
                    }
                } else {
                    ApplyState::start_search(net)
                }
            },
            None => ApplyState::start_search(net),
        }
    }

    /// Takes the outcome of a probe: an address that did not answer is
    /// configured; one that answered gives way to the next candidate, until
    /// the budget of the search is spent.
    pub fn on_probe(self, net: &Subnet, in_use: bool) -> (r: (ApplyState, Step))
        requires
            self is Reusing || self is Searching,
            self.wf(),
        ensures
            r.0.wf(),
            !(r.1 is Persist),
            match self {
                ApplyState::Reusing { ip } => if !in_use {
                    applying(ip@, r.0, r.1)
                } else {
                    search_begun(net.base@, router_host_spec(net.router@), r.0, r.1)
                },
                ApplyState::Searching { order, tried } => if !in_use {
                    applying(host_text(net.base@, order@[tried as int]), r.0, r.1)
                } else if tried + 1 < probe_budget(order@.len()) {
                    &&& r.0 matches ApplyState::Searching { order: o, tried: t } && o@ == order@
                        && t == tried + 1
                    &&& r.1 matches Step::Probe(p) && p@ == host_text(net.base@, order@[tried + 1])
                } else {
                    r.0 is Finished && r.1 is Exhausted
                },
                _ => false,
            },
    {
        match self {
            ApplyState::Reusing { ip } => {
                if !in_use {
                    let p = ip.clone();
                    (ApplyState::Applying { ip }, Step::SetManual(p))
                } else {
                    ApplyState::start_search(net)
                }
            },
            ApplyState::Searching { order, tried } => {
                if !in_use {
                    let ip = host_address(net.base.as_str(), order[tried]);
                    let p = ip.clone();
                    (ApplyState::Applying { ip }, Step::SetManual(p))
                } else if tried + 1 < order.len() && tried + 1 < PROBE_LIMIT {
                    let p = host_address(net.base.as_str(), order[tried + 1]);
                    (ApplyState::Searching { order, tried: tried + 1 }, Step::Probe(p))
                } else {
                    (ApplyState::Finished, Step::Exhausted)
                }
            },
            _ => (ApplyState::Finished, Step::Exhausted),
        }
    }

    /// Takes the outcome of the configuration command: only a command that
    /// succeeded has its address remembered.
    pub fn on_command(self, success: bool) -> (r: (ApplyState, Step))
        requires
            self is Applying,
        ensures
            r.0 is Finished,
            self matches ApplyState::Applying { ip } && (success ==> (r.1 matches Step::Persist(p)
                && p@ == ip@)),
            !success ==> r.1 is CommandFailed,
    {
        match self {
            ApplyState::Applying { ip } => {
                if success {
                    (ApplyState::Finished, Step::Persist(ip))
                } else {
                    (ApplyState::Finished, Step::CommandFailed)
                }
            },
            _ => (ApplyState::Finished, Step::CommandFailed),
        }
    }
}

} // verus!
