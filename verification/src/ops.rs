//! Operations that run in the background: requests to the manager, in order,
//! and the message that reports how they went.

use vstd::prelude::*;

use crate::handle::{outcome, Call, Exchange, ManagerHandle, Outcome};
use crate::session::Session;
use crate::text::{decimal, decimal_text, views};

verus! {

/// A background operation.
#[derive(Debug)]
pub enum Op {
    Start { name: String },
    Stop { name: String },
    Restart { name: String },
    RestartAll { names: Vec<String> },
    Dump { name: String, dest: String },
}

/// What an [`Op`] holds.
pub enum OpModel {
    Start { name: Seq<char> },
    Stop { name: Seq<char> },
    Restart { name: Seq<char> },
    RestartAll { names: Seq<Seq<char>> },
    Dump { name: Seq<char>, dest: Seq<char> },
}

impl View for Op {
    type V = OpModel;

    open spec fn view(&self) -> OpModel {
        match *self {
            Op::Start { name } => OpModel::Start { name: name@ },
            Op::Stop { name } => OpModel::Stop { name: name@ },
            Op::Restart { name } => OpModel::Restart { name: name@ },
            Op::RestartAll { names } => OpModel::RestartAll { names: views(names@) },
            Op::Dump { name, dest } => OpModel::Dump { name: name@, dest: dest@ },
        }
    }
}

/// The requests that an operation makes, in order. A bulk restart stops every
/// target before it starts any, so that the cleanup of one cannot hit another
/// that is already up again.
pub open spec fn plan(op: OpModel) -> Seq<Call> {
    match op {
        OpModel::Start { name } => seq![Call::Start(name)],
        OpModel::Stop { name } => seq![Call::Stop(name)],
        OpModel::Restart { name } => seq![Call::Restart(name)],
        OpModel::RestartAll { names } => names.map_values(|name: Seq<char>| Call::Stop(name))
            + names.map_values(|name: Seq<char>| Call::Start(name)),
        OpModel::Dump { name, dest } => seq![Call::Dump(name, dest)],
    }
}

/// The requests of an operation with their outcomes.
pub open spec fn exchanges(op: OpModel, outcomes: Seq<Outcome>) -> Seq<Exchange> {
    Seq::new(plan(op).len(), |i: int| Exchange::Request(plan(op)[i], outcomes[i]))
}

/// Whether the requests of an operation were made, in order and no others, with these
/// outcomes, between `before` and `after`.
pub open spec fn op_ran(
    before: Seq<Exchange>,
    after: Seq<Exchange>,
    op: OpModel,
    outcomes: Seq<Outcome>,
) -> bool {
    &&& outcomes.len() == plan(op).len()
    &&& after == before + exchanges(op, outcomes)
}

/// How many of the outcomes are successes.
pub open spec fn successes(outcomes: Seq<Outcome>) -> nat
    decreases outcomes.len(),
{
    if outcomes.len() == 0 {
        0
    } else {
        successes(outcomes.drop_last()) + if outcomes.last() is Ok {
            1nat
        } else {
            0nat
        }
    }
}

/// `done` if the request succeeded; otherwise what was tried, and the error.
pub open spec fn report(done: Seq<char>, tried: Seq<char>, outcome: Outcome) -> Seq<char> {
    match outcome {
        Ok(()) => done,
        Err(text) => tried + ": "@ + text,
    }
}

/// The message that reports how an operation went.
pub open spec fn op_summary(op: OpModel, outcomes: Seq<Outcome>) -> Seq<char> {
    match op {
        OpModel::Start { name } => report("started "@ + name, "start "@ + name, outcomes[0]),
        OpModel::Stop { name } => report("stopped "@ + name, "stop "@ + name, outcomes[0]),
        OpModel::Restart { name } => report("restarted "@ + name, "restart "@ + name, outcomes[0]),
        OpModel::RestartAll { names } => {
            let ok = successes(outcomes.skip(names.len() as int));
            let failed = (names.len() - ok) as nat;
            "restarted "@ + decimal_text(ok) + " target(s), "@ + decimal_text(failed)
                + " error(s)"@
        },
        OpModel::Dump { name, dest } => report("dumped to "@ + dest, "dump "@ + name, outcomes[0]),
    }
}

/// The message that is shown while an operation runs.
pub open spec fn op_label(op: OpModel) -> Seq<char> {
    match op {
        OpModel::Start { name } => "starting "@ + name,
        OpModel::Stop { name } => "stopping "@ + name,
        OpModel::Restart { name } => "restarting "@ + name,
        OpModel::RestartAll { names } => "restarting "@ + decimal_text(names.len())
            + " target(s)"@,
        OpModel::Dump { name, dest } => "dumping "@ + name,
    }
}

/// Puts two texts together.
pub fn concat(a: &str, b: &str) -> (r: String)
    ensures
        r@ == a@ + b@,
{
    let mut out: String = a.to_owned();
    out.append(b);
    out
}

/// The message for one request: `done` and the name, or what was tried, the name
/// and the error.
pub fn report_text(done: String, tried: String, result: Result<(), String>) -> (r: String)
    ensures
        r@ == report(done@, tried@, outcome(result)),
{
    match result {
        Ok(()) => done,
        Err(text) => {
            let mut out: String = tried;
            out.append(": ");
            out.append(text.as_str());
            out
        },
    }
}

/// The message that is shown while `op` runs.
pub fn label_of(op: &Op) -> (r: String)
    ensures
        r@ == op_label(op@),
{
    match op {
        Op::Start { name } => concat("starting ", name.as_str()),
        Op::Stop { name } => concat("stopping ", name.as_str()),
        Op::Restart { name } => concat("restarting ", name.as_str()),
        Op::RestartAll { names } => {
            let mut out: String = concat("restarting ", decimal(names.len()).as_str());
            out.append(" target(s)");
            out
        },
        Op::Dump { name, .. } => concat("dumping ", name.as_str()),
    }
}

/// The first `n` requests of an operation with their outcomes.
spec fn first_exchanges(op: OpModel, outcomes: Seq<Outcome>, n: nat) -> Seq<Exchange> {
    Seq::new(n, |i: int| Exchange::Request(plan(op)[i], outcomes[i]))
}

proof fn lemma_one_more_exchange(
    before: Seq<Exchange>,
    op: OpModel,
    outcomes: Seq<Outcome>,
    outcome: Outcome,
)
    ensures
        (before + first_exchanges(op, outcomes, outcomes.len())).push(
            Exchange::Request(plan(op)[outcomes.len() as int], outcome),
        ) == before + first_exchanges(op, outcomes.push(outcome), outcomes.len() + 1),
{
    assert((before + first_exchanges(op, outcomes, outcomes.len())).push(
        Exchange::Request(plan(op)[outcomes.len() as int], outcome),
    ) =~= before + first_exchanges(op, outcomes.push(outcome), outcomes.len() + 1));
}

fn restart_all<H: ManagerHandle>(session: &mut Session<H>, names: &Vec<String>) -> (summary:
    String)
    ensures
        exists|outcomes: Seq<Outcome>| #[trigger]
            op_ran(
                old(session)@,
                final(session)@,
                OpModel::RestartAll { names: views(names@) },
                outcomes,
            ) && summary@ == op_summary(OpModel::RestartAll { names: views(names@) }, outcomes),
        final(session).follows(*old(session)),
{
    let ghost op = OpModel::RestartAll { names: views(names@) };
    let ghost before = session@;
    let ghost mut outcomes: Seq<Outcome> = Seq::empty();
    let n: usize = names.len();
    let mut i: usize = 0;
    assert(session@ =~= before + first_exchanges(op, outcomes, 0));
    while i < n
        invariant
            i <= n == names@.len(),
            op == (OpModel::RestartAll { names: views(names@) }),
            outcomes.len() == i,
            session@ == before + first_exchanges(op, outcomes, i as nat),
            session.follows(*old(session)),
        decreases n - i,
    {
        let result: Result<(), String> = session.stop(names[i].as_str());
        proof {
            assert(plan(op)[i as int] == Call::Stop(names@[i as int]@));
            lemma_one_more_exchange(before, op, outcomes, outcome(result));
            outcomes = outcomes.push(outcome(result));
        }
        i = i + 1;
    }
    let mut ok: usize = 0;
    let mut failed: usize = 0;
    let mut k: usize = 0;
    assert(outcomes.skip(n as int) =~= Seq::<Outcome>::empty());
    while k < n
        invariant
            k <= n == names@.len(),
            op == (OpModel::RestartAll { names: views(names@) }),
            outcomes.len() == n + k,
            ok + failed == k,
            ok == successes(outcomes.skip(n as int)),
            session@ == before + first_exchanges(op, outcomes, (n + k) as nat),
            session.follows(*old(session)),
        decreases n - k,
    {
        let result: Result<(), String> = session.start(names[k].as_str());
        proof {
            assert(plan(op)[n + k] == Call::Start(names@[k as int]@));
            lemma_one_more_exchange(before, op, outcomes, outcome(result));
            let earlier = outcomes;
            outcomes = outcomes.push(outcome(result));
            assert(outcomes.skip(n as int).drop_last() =~= earlier.skip(n as int));
            assert(outcomes.skip(n as int).last() == outcome(result));
        }
        if result.is_ok() {
            ok = ok + 1;
        } else {
            failed = failed + 1;
        }
        k = k + 1;
    }
    let mut out: String = concat("restarted ", decimal(ok).as_str());
    out.append(" target(s), ");
    out.append(decimal(failed).as_str());
    out.append(" error(s)");
    proof {
        assert(first_exchanges(op, outcomes, (n + n) as nat) =~= exchanges(op, outcomes));
        assert(op_ran(before, session@, op, outcomes));
    }
    out
}

/// The message that reports how the only request of an operation went.
fn report_only(
    before: Ghost<Seq<Exchange>>,
    op: Ghost<OpModel>,
    done: String,
    tried: String,
    result: Result<(), String>,
) -> (summary: String)
    requires
        plan(op@).len() == 1,
        op_summary(op@, seq![outcome(result)]) == report(done@, tried@, outcome(result)),
    ensures
        exists|outcomes: Seq<Outcome>| #[trigger]
            op_ran(
                before@,
                before@.push(Exchange::Request(plan(op@)[0], outcome(result))),
                op@,
                outcomes,
            ) && summary@ == op_summary(op@, outcomes),
{
    proof {
        let outcomes = seq![outcome(result)];
        let after = before@.push(Exchange::Request(plan(op@)[0], outcome(result)));
        assert(after =~= before@ + exchanges(op@, outcomes));
        assert(op_ran(before@, after, op@, outcomes));
    }
    report_text(done, tried, result)
}

/// Makes the requests of `op` and returns the message that reports how they went.
pub fn run_op<H: ManagerHandle>(session: &mut Session<H>, op: &Op) -> (summary: String)
    ensures
        exists|outcomes: Seq<Outcome>| #[trigger]
            op_ran(old(session)@, final(session)@, op@, outcomes) && summary@ == op_summary(
                op@,
                outcomes,
            ),
        final(session).follows(*old(session)),
{
    let ghost before = session@;
    match op {
        Op::Start { name } => {
            let result: Result<(), String> = session.start(name.as_str());
            let done: String = concat("started ", name.as_str());
            let tried: String = concat("start ", name.as_str());
            report_only(Ghost(before), Ghost(op@), done, tried, result)
        },
        Op::Stop { name } => {
            let result: Result<(), String> = session.stop(name.as_str());
            let done: String = concat("stopped ", name.as_str());
            let tried: String = concat("stop ", name.as_str());
            report_only(Ghost(before), Ghost(op@), done, tried, result)
        },
        Op::Restart { name } => {
            let result: Result<(), String> = session.restart(name.as_str());
            let done: String = concat("restarted ", name.as_str());
            let tried: String = concat("restart ", name.as_str());
            report_only(Ghost(before), Ghost(op@), done, tried, result)
        },
        Op::RestartAll { names } => restart_all(session, names),
        Op::Dump { name, dest } => {
            let result: Result<(), String> = session.dump_log(name.as_str(), dest.as_str());
            let done: String = concat("dumped to ", dest.as_str());
            let tried: String = concat("dump ", name.as_str());
            report_only(Ghost(before), Ghost(op@), done, tried, result)
        },
    }
}

/// A bulk restart makes every stop request before any start request.
pub proof fn law_restart_all_stops_first(names: Seq<Seq<char>>, i: int, j: int)
    requires
        0 <= i < plan(OpModel::RestartAll { names }).len(),
        0 <= j < plan(OpModel::RestartAll { names }).len(),
        plan(OpModel::RestartAll { names })[i] is Stop,
        plan(OpModel::RestartAll { names })[j] is Start,
    ensures
        i < j,
{
}

/// A bulk restart stops each of its targets once and starts each of them once, in
/// the order in which they are listed.
pub proof fn law_restart_all_covers(names: Seq<Seq<char>>, i: int)
    requires
        0 <= i < names.len(),
    ensures
        plan(OpModel::RestartAll { names }).len() == 2 * names.len(),
        plan(OpModel::RestartAll { names })[i] == Call::Stop(names[i]),
        plan(OpModel::RestartAll { names })[names.len() + i] == Call::Start(names[i]),
{
}

} // verus!
