//! One proxy rule: a bind address, an ordered list of destinations, and a
//! lifecycle of stopped, starting, listening, error, closed.  The listener
//! socket itself lives with the embedding binary, which reports the bind's
//! outcome back; each accepted connection then tries the destinations in
//! list order and the first rendezvous that succeeds wins.

use vstd::prelude::*;

use crate::entity::{opt_str_view, ProxyGoto};

verus! {

/// The status a rule reports while its listener is being set up.
pub const RULE_STARTING: i32 = 0;

/// The status of a rule whose listener is accepting.
pub const RULE_LISTENING: i32 = 1;

/// The status of a rule whose listener closed in an orderly way.
pub const RULE_CLOSED: i32 = 2;

/// The status of a rule whose bind failed.
pub const RULE_ERROR: i32 = -1;

/// A rule's policy: its name, where to listen, and where to forward.
pub struct RuleCfg {
    pub name: String,
    pub bind_host: String,
    pub bind_port: i32,
    pub goto: Vec<ProxyGoto>,
}

/// Why a rule operation was refused.
#[derive(Clone, Copy, Debug, PartialEq, Eq, Structural)]
pub enum RuleError {
    /// The rule is already starting or running.
    Starting,
}

/// One proxy rule and its lifecycle state.
pub struct RuleProxy {
    pub cfg: RuleCfg,
    /// Whether the rule's tasks are live; a stopped rule has `false`.
    pub running: bool,
    /// The reported status code.
    pub stat: i32,
    /// The reported status text, if any.
    pub msgs: Option<String>,
    /// Whether the rule holds a bound listener.
    pub bound: bool,
}

impl RuleProxy {
    /// A fresh rule: stopped, waiting to be started.
    pub fn new(cfg: RuleCfg) -> (r: RuleProxy)
        ensures
            r.cfg == cfg,
            !r.running,
            r.stat == RULE_STARTING,
            r.msgs matches Some(m) && m@ == "wait start..."@,
            !r.bound,
    {
        RuleProxy {
            cfg,
            running: false,
            stat: RULE_STARTING,
            msgs: Some("wait start...".to_owned()),
            bound: false,
        }
    }

    /// Whether the rule is stopped.
    pub fn stopd(&self) -> (r: bool)
        ensures
            r == !self.running,
    {
        !self.running
    }

    /// Starts the rule: marks it live and starting, so the embedding
    /// binary binds the listener and reports back.  A rule already live is
    /// refused.
    pub fn start(&mut self) -> (r: Result<(), RuleError>)
        ensures
            match r {
                Ok(()) => !old(self).running && *final(self) == (RuleProxy {
                    running: true,
                    stat: RULE_STARTING,
                    msgs: None,
                    ..*old(self)
                }),
                Err(RuleError::Starting) => old(self).running && *final(self) == *old(self),
            },
    {
        if self.running {
            return Err(RuleError::Starting);
        }
        self.running = true;
        self.stat = RULE_STARTING;
        self.msgs = None;
        Ok(())
    }

    /// Records a successful bind: the rule is listening.
    pub fn on_bind_ok(&mut self)
        ensures
            *final(self) == (RuleProxy { bound: true, stat: RULE_LISTENING, ..*old(self) }),
    {
        self.bound = true;
        self.stat = RULE_LISTENING;
    }

    /// Records a failed bind: the rule reports the error and does not
    /// retry on its own.
    pub fn on_bind_err(&mut self, msg: String)
        ensures
            *final(self) == (RuleProxy {
                bound: false,
                stat: RULE_ERROR,
                msgs: final(self).msgs,
                ..*old(self)
            }),
            final(self).msgs matches Some(m) && m@ == "bind err:"@ + msg@,
    {
        let mut s = "bind err:".to_owned();
        s.append(msg.as_str());
        self.bound = false;
        self.stat = RULE_ERROR;
        self.msgs = Some(s);
    }

    /// Records that the listener loop ended in an orderly way.
    pub fn on_closed(&mut self)
        ensures
            *final(self) == (RuleProxy {
                running: false,
                bound: false,
                stat: RULE_CLOSED,
                msgs: final(self).msgs,
                ..*old(self)
            }),
            final(self).msgs matches Some(m) && m@ == "bind is closed!"@,
    {
        self.running = false;
        self.bound = false;
        self.stat = RULE_CLOSED;
        self.msgs = Some("bind is closed!".to_owned());
    }

    /// Stops the rule: its tasks wind down and the listener is to be
    /// closed.  Relays already running drain on their own.
    pub fn stop(&mut self)
        ensures
            *final(self) == (RuleProxy { running: false, ..*old(self) }),
    {
        self.running = false;
    }

    /// The rule's policy.
    pub fn conf(&self) -> (r: &RuleCfg)
        ensures
            r == &self.cfg,
    {
        &self.cfg
    }

    /// The reported status code.
    pub fn status(&self) -> (r: i32)
        ensures
            r == self.stat,
    {
        self.stat
    }

    /// The reported status text.
    pub fn msg(&self) -> (r: Option<String>)
        ensures
            opt_str_view(r) == opt_str_view(self.msgs),
    {
        match &self.msgs {
            None => None,
            Some(m) => Some(m.clone()),
        }
    }
}

} // verus!
