//! Registering definitions: one request for each, and one report about all.

use vstd::prelude::*;

use crate::chain;
use crate::cli::connection::Connection;
use crate::config;
use crate::config::KvDefinition;
use crate::defs;
use crate::text;
use crate::wire::{Request, Response};

verus! {

/// `r` asks for the definition `def`, read in the namespace `context`.
pub open spec fn is_define_request(r: Request, def: config::DefView, context: Seq<char>) -> bool {
    r matches Request::KvDefine { key, source, soft_ttl_secs, hard_ttl_secs, meta } && key@
        == config::def_key(def, context) && source@ == def.source && soft_ttl_secs
        == def.soft_ttl_secs && hard_ttl_secs == def.hard_ttl_secs && meta@ == def.meta
}

/// The request for the definition `def`, read in the namespace `ctx_ns`.
pub fn define_request(def: &KvDefinition, ctx_ns: &str) -> (r: Request)
    ensures
        is_define_request(r, def@, ctx_ns@),
{
    let key = def.full_key(ctx_ns);
    let copy = defs::copy_definition(def);
    Request::KvDefine {
        key,
        source: copy.source,
        soft_ttl_secs: copy.soft_ttl_secs,
        hard_ttl_secs: copy.hard_ttl_secs,
        meta: copy.meta,
    }
}

/// What came of one file, or of one definition in it.
#[derive(Debug, Clone, PartialEq, Eq)]
pub enum DefineAttempt {
    Defined,
    /// The file as a whole, or one definition, with what is said about it.
    Failed(String),
}

/// What came of the request for `key`. A definition that is refused does not
/// stop the others; a daemon that cannot be reached does.
pub fn define_attempt(key: &str, reply: Result<Response, String>) -> (r: Result<
    DefineAttempt,
    String,
>)
    ensures
        match reply {
            Ok(Response::Success(_)) => r == Ok::<DefineAttempt, String>(DefineAttempt::Defined),
            Ok(Response::Failure(e)) => r matches Ok(DefineAttempt::Failed(message)) && message@
                == key@ + ": "@ + e.error.message@,
            Err(e) => r == Err::<DefineAttempt, String>(e),
        },
{
    match reply {
        Ok(Response::Success(_)) => Ok(DefineAttempt::Defined),
        Ok(Response::Failure(e)) => Ok(
            DefineAttempt::Failed(
                key.to_owned().concat(": ").concat(e.error.message.as_str()),
            ),
        ),
        Err(e) => Err(e),
    }
}

/// How many of `attempts` defined something.
pub open spec fn defined_count(attempts: Seq<DefineAttempt>) -> nat
    decreases attempts.len(),
{
    if attempts.len() == 0 {
        0
    } else {
        let before = defined_count(attempts.drop_last());
        if attempts.last() is Defined {
            before + 1
        } else {
            before
        }
    }
}

/// What is said about the failures among `attempts`, each on a line of its own.
pub open spec fn failure_lines(attempts: Seq<DefineAttempt>) -> Seq<char>
    decreases attempts.len(),
{
    if attempts.len() == 0 {
        Seq::empty()
    } else {
        let before = failure_lines(attempts.drop_last());
        match attempts.last() {
            DefineAttempt::Failed(message) => before + "\n  "@ + message@,
            DefineAttempt::Defined => before,
        }
    }
}

/// Every attempt either defined something or is reported as a failure.
pub proof fn every_attempt_counts(attempts: Seq<DefineAttempt>)
    ensures
        defined_count(attempts) <= attempts.len(),
        defined_count(attempts) == attempts.len() <==> forall|i: int|
            0 <= i < attempts.len() ==> #[trigger] attempts[i] is Defined,
    decreases attempts.len(),
{
    if attempts.len() > 0 {
        let before = attempts.drop_last();
        every_attempt_counts(before);
        assert(attempts[attempts.len() - 1] == attempts.last());
        assert(forall|i: int| 0 <= i < before.len() ==> #[trigger] before[i] == attempts[i]);
        if forall|i: int| 0 <= i < attempts.len() ==> #[trigger] attempts[i] is Defined {
            assert(attempts.last() is Defined);
        }
        if defined_count(attempts) == attempts.len() {
            assert forall|i: int| 0 <= i < attempts.len() implies #[trigger] attempts[i] is Defined by {
                if i < before.len() {
                    assert(before[i] is Defined);
                }
            }
        }
    }
}

/// What is printed about a batch of definitions: a line, and the failure.
#[derive(Debug, Clone, PartialEq, Eq)]
pub struct DefineReport {
    pub line: Option<String>,
    pub failure: Option<String>,
}

/// What is printed about a batch of definitions. How many were defined is said
/// even where others failed; only a batch that defined none of them says
/// nothing of it.
pub fn define_report(attempts: &[DefineAttempt]) -> (r: DefineReport)
    ensures
        reports(r, attempts@),
{
    let mut defined: usize = 0;
    let mut failed: usize = 0;
    let mut lines = String::new();
    let mut i: usize = 0;
    assert(attempts@.take(0) =~= Seq::<DefineAttempt>::empty());
    while i < attempts.len()
        invariant
            i <= attempts.len(),
            defined + failed == i,
            defined == defined_count(attempts@.take(i as int)),
            lines@ == failure_lines(attempts@.take(i as int)),
        decreases attempts.len() - i,
    {
        proof {
            assert(attempts@.take(i + 1).drop_last() =~= attempts@.take(i as int));
            assert(attempts@.take(i + 1).last() == attempts@[i as int]);
        }
        match &attempts[i] {
            DefineAttempt::Defined => {
                defined += 1;
            },
            DefineAttempt::Failed(message) => {
                failed += 1;
                lines.append("\n  ");
                lines.append(message.as_str());
            },
        }
        i += 1;
    }
    assert(attempts@.take(i as int) =~= attempts@);
    let line = if failed == 0 || defined > 0 {
        Some("defined ".to_owned().concat(text::number_text(defined as u64).as_str()))
    } else {
        None
    };
    let failure = if failed == 0 {
        None
    } else {
        Some(
            text::number_text(failed as u64).concat(" definition(s) failed:").concat(
                lines.as_str(),
            ),
        )
    };
    DefineReport { line, failure }
}

/// Whether to go on after the request for the definition `name`, where a
/// half-registered set must not be used.
pub fn register_reply(name: &str, reply: Response) -> (r: Result<(), String>)
    ensures
        match reply {
            Response::Success(_) => r is Ok,
            Response::Failure(e) => r matches Err(message) && message@ == name@ + ": "@
                + e.error.message@,
        },
{
    match reply {
        Response::Success(_) => Ok(()),
        Response::Failure(e) => Err(name.to_owned().concat(": ").concat(e.error.message.as_str())),
    }
}

/// A part of a batch.
#[derive(Debug, Clone, PartialEq, Eq)]
pub enum BatchItem {
    /// A file that does not read, with what is said about it.
    Unreadable(String),
    Define(KvDefinition),
}

/// What a [`BatchItem`] holds.
pub enum BatchView {
    Unreadable(Seq<char>),
    Define(config::DefView),
}

impl View for BatchItem {
    type V = BatchView;

    open spec fn view(&self) -> BatchView {
        match self {
            BatchItem::Unreadable(e) => BatchView::Unreadable(e@),
            BatchItem::Define(def) => BatchView::Define(def@),
        }
    }
}

impl DeepView for BatchItem {
    type V = BatchView;

    open spec fn deep_view(&self) -> BatchView {
        self@
    }
}

/// The batch with one more file: its definitions, or that it does not read.
pub fn add_file(batch: &mut Vec<BatchItem>, file: Result<Vec<KvDefinition>, String>)
    ensures
        final(batch).deep_view() == old(batch).deep_view() + match file {
            Ok(found) => found.deep_view().map_values(|d: config::DefView| BatchView::Define(d)),
            Err(e) => seq![BatchView::Unreadable(e@)],
        },
{
    let ghost start = batch.deep_view();
    match file {
        Err(e) => {
            batch.push(BatchItem::Unreadable(e));
            assert(batch.deep_view() =~= start + seq![BatchView::Unreadable(e@)]);
        },
        Ok(found) => {
            let ghost added = found.deep_view().map_values(
                |d: config::DefView| BatchView::Define(d),
            );
            let mut i: usize = 0;
            assert(start + added.take(0) =~= start);
            while i < found.len()
                invariant
                    i <= found.len(),
                    added == found.deep_view().map_values(
                        |d: config::DefView| BatchView::Define(d),
                    ),
                    batch.deep_view() == start + added.take(i as int),
                decreases found.len() - i,
            {
                let ghost before = batch.deep_view();
                let def = defs::copy_definition(&found[i]);
                batch.push(BatchItem::Define(def));
                assert(batch.deep_view() =~= before.push(BatchView::Define(def@)));
                assert(batch.deep_view() =~= start + added.take(i + 1));
                i += 1;
            }
            assert(added.take(i as int) =~= added);
        },
    }
}

/// `attempt` is what the reply says of the definition of `key`.
pub open spec fn attempted(key: Seq<char>, reply: Response, attempt: DefineAttempt) -> bool {
    match reply {
        Response::Success(_) => attempt is Defined,
        Response::Failure(e) => attempt matches DefineAttempt::Failed(message) && message@ == key
            + ": "@ + e.error.message@,
    }
}

/// `report` is what is printed about `attempts`.
pub open spec fn reports(report: DefineReport, attempts: Seq<DefineAttempt>) -> bool {
    let defined = defined_count(attempts);
    let failed = (attempts.len() - defined) as nat;
    &&& report.line.deep_view() == if failed == 0 || defined > 0 {
        Some("defined "@ + text::decimal(defined))
    } else {
        None
    }
    &&& report.failure.deep_view() == if failed == 0 {
        None
    } else {
        Some(text::decimal(failed) + " definition(s) failed:"@ + failure_lines(attempts))
    }
}

/// Do one part of a batch: an unreadable file is a failure as it is, and a
/// definition is asked for. An error where the daemon cannot be reached.
pub fn attempt_item<C: Connection>(sender: &mut C, item: &BatchItem, ctx_ns: &str) -> (r: Result<
    DefineAttempt,
    String,
>)
    ensures
        match item@ {
            BatchView::Unreadable(e) => (r matches Ok(DefineAttempt::Failed(message)) && message@
                == e) && *final(sender) == *old(sender),
            BatchView::Define(def) => exists|
                m: &mut C,
                req: &Request,
                reply: Result<Response, String>,
            |
                *m == *old(sender) && *final(m) == *final(sender) && is_define_request(
                    *req,
                    def,
                    ctx_ns@,
                ) && #[trigger] call_ensures(C::send, (m, req), reply) && match reply {
                    Ok(resp) => r matches Ok(attempt) && attempted(
                        config::def_key(def, ctx_ns@),
                        resp,
                        attempt,
                    ),
                    Err(e) => r == Err::<DefineAttempt, String>(e),
                },
        },
{
    match item {
        BatchItem::Unreadable(e) => Ok(DefineAttempt::Failed(e.clone())),
        BatchItem::Define(def) => {
            let req = define_request(def, ctx_ns);
            let key = def.full_key(ctx_ns);
            define_attempt(key.as_str(), sender.send(&req))
        },
    }
}

/// `states` are what the connection was before and after each of `attempts`,
/// beginning with `first`.
pub open spec fn went_through<C>(
    states: Seq<C>,
    first: C,
    attempts: Seq<DefineAttempt>,
) -> bool {
    chain::leads(states, first, states.last(), attempts.len())
}

/// Ask for every definition of a batch, in order, once each. One that is refused
/// does not stop the others: the report tells of all. A daemon that cannot be
/// reached stops the batch.
pub fn run_define_defs<C: Connection>(batch: &[BatchItem], ctx_ns: &str, sender: &mut C) -> (r:
    Result<DefineReport, String>)
    ensures
        exists|attempts: Seq<DefineAttempt>, states: Seq<C>| #[trigger]
            went_through(states, *old(sender), attempts) && (forall|i: int| #[trigger]
                chain::is_step(states, i) ==> (exists|m: &mut C|
                    *m == states[i] && *final(m) == states[i + 1] && #[trigger] call_ensures(
                        attempt_item::<C>,
                        (m, &batch@[i], ctx_ns),
                        Ok(attempts[i]),
                    ))) && match r {
                Ok(report) => attempts.len() == batch@.len() && reports(report, attempts)
                    && *final(sender) == states.last(),
                Err(e) => attempts.len() < batch@.len() && exists|
                    m: &mut C,
                    failed: Result<DefineAttempt, String>,
                |
                    *m == states.last() && *final(m) == *final(sender) && failed == Err::<
                        DefineAttempt,
                        String,
                    >(e) && #[trigger] call_ensures(
                        attempt_item::<C>,
                        (m, &batch@[attempts.len() as int], ctx_ns),
                        failed,
                    ),
            },
{
    let mut attempts: Vec<DefineAttempt> = Vec::new();
    let ghost mut states: Seq<C> = seq![*sender];
    let mut i: usize = 0;
    while i < batch.len()
        invariant
            i <= batch.len(),
            attempts@.len() == i,
            chain::leads(states, *old(sender), *sender, i as nat),
            forall|k: int| #[trigger]
                chain::is_step(states, k) ==> (exists|m: &mut C|
                    *m == states[k] && *final(m) == states[k + 1] && #[trigger] call_ensures(
                        attempt_item::<C>,
                        (m, &batch@[k], ctx_ns),
                        Ok(attempts@[k]),
                    )),
        decreases batch.len() - i,
    {
        let ghost before = states;
        let ghost made = attempts@;
        let attempted = attempt_item(sender, &batch[i], ctx_ns);
        let attempt = match attempted {
            Ok(attempt) => attempt,
            Err(e) => {
                assert(attempted == Err::<DefineAttempt, String>(e));
                assert(batch@[made.len() as int] == batch@[i as int]);
                assert(went_through(before, *old(sender), made));
                return Err(e);
            },
        };
        attempts.push(attempt);
        proof {
            states = before.push(*sender);
            assert forall|k: int| #[trigger] chain::is_step(states, k) implies (exists|m: &mut C|
                *m == states[k] && *final(m) == states[k + 1] && #[trigger] call_ensures(
                    attempt_item::<C>,
                    (m, &batch@[k], ctx_ns),
                    Ok(attempts@[k]),
                )) by {
                assert(states[k] == before[k]);
                if chain::is_step(before, k) {
                    assert(states[k + 1] == before[k + 1] && attempts@[k] == made[k]);
                } else {
                    assert(states[k + 1] == *sender && attempts@[k] == attempt);
                    assert(attempted == Ok::<DefineAttempt, String>(attempt));
                }
            }
        }
        i += 1;
    }
    assert(went_through(states, *old(sender), attempts@));
    Ok(define_report(attempts.as_slice()))
}

/// Ask for one definition that a command needs: an error where it is refused, or
/// where the daemon cannot be reached.
pub fn register_def<C: Connection>(sender: &mut C, def: &KvDefinition, ctx_ns: &str) -> (r: Result<
    (),
    String,
>)
    ensures
        exists|m: &mut C, req: &Request, reply: Result<Response, String>|
            *m == *old(sender) && *final(m) == *final(sender) && is_define_request(
                *req,
                def@,
                ctx_ns@,
            ) && #[trigger] call_ensures(C::send, (m, req), reply) && match reply {
                Ok(Response::Success(_)) => r is Ok,
                Ok(Response::Failure(body)) => r matches Err(e) && e@ == def.name@ + ": "@
                    + body.error.message@,
                Err(e) => r == Err::<(), String>(e),
            },
{
    let req = define_request(def, ctx_ns);
    match sender.send(&req) {
        Err(e) => Err(e),
        Ok(resp) => register_reply(def.name.as_str(), resp),
    }
}

/// Ask for every definition that a command needs before it runs, in order, once
/// each. The first that is refused, or a daemon that cannot be reached, ends it:
/// nothing runs with half of its definitions.
pub fn register_defs<C: Connection>(found: &[KvDefinition], ctx_ns: &str, sender: &mut C) -> (r:
    Result<(), String>)
    ensures
        exists|states: Seq<C>| #[trigger]
            chain::leads(states, *old(sender), states.last(), (states.len() - 1) as nat) && (
            forall|i: int| #[trigger]
                chain::is_step(states, i) ==> (exists|m: &mut C, done: Result<(), String>|
                    *m == states[i] && *final(m) == states[i + 1] && done is Ok
                        && #[trigger] call_ensures(
                        register_def::<C>,
                        (m, &found@[i], ctx_ns),
                        done,
                    ))) && match r {
                Ok(()) => states.len() == found@.len() + 1 && *final(sender) == states.last(),
                Err(e) => states.len() <= found@.len() && exists|m: &mut C|
                    *m == states.last() && *final(m) == *final(sender) && #[trigger] call_ensures(
                        register_def::<C>,
                        (m, &found@[states.len() - 1], ctx_ns),
                        Err(e),
                    ),
            },
{
    let ghost mut states: Seq<C> = seq![*sender];
    let mut i: usize = 0;
    while i < found.len()
        invariant
            i <= found.len(),
            chain::leads(states, *old(sender), *sender, i as nat),
            forall|k: int| #[trigger]
                chain::is_step(states, k) ==> (exists|m: &mut C, done: Result<(), String>|
                    *m == states[k] && *final(m) == states[k + 1] && done is Ok
                        && #[trigger] call_ensures(
                        register_def::<C>,
                        (m, &found@[k], ctx_ns),
                        done,
                    )),
        decreases found.len() - i,
    {
        let ghost before = states;
        let registered = register_def(sender, &found[i], ctx_ns);
        if let Err(e) = registered {
            assert(registered == Err::<(), String>(e));
            assert(chain::leads(before, *old(sender), before.last(), (before.len() - 1) as nat));
            return Err(e);
        }
        proof {
            states = before.push(*sender);
            assert forall|k: int| #[trigger] chain::is_step(states, k) implies (exists|
                m: &mut C,
                done: Result<(), String>,
            |
                *m == states[k] && *final(m) == states[k + 1] && done is Ok
                    && #[trigger] call_ensures(
                    register_def::<C>,
                    (m, &found@[k], ctx_ns),
                    done,
                )) by {
                assert(states[k] == before[k]);
                if chain::is_step(before, k) {
                    assert(states[k + 1] == before[k + 1]);
                } else {
                    assert(states[k + 1] == *sender);
                }
            }
        }
        i += 1;
    }
    assert(chain::leads(states, *old(sender), states.last(), (states.len() - 1) as nat));
    Ok(())
}

} // verus!
