//! The admission check of a message against every quota rule.
//!
//! The check reads a predicate evaluator and a counter store that live
//! outside this library. It is therefore a resumable computation: it says
//! what it needs to know next, takes the answer, and goes on until it has
//! either accepted the message, with the ledger of reservations to attach to
//! it, or rejected it. It never writes to a counter.

use vstd::prelude::*;
use crate::quota::check::{
    Answer, Query, Question, copy_key, count_entry, exceeds, rule_rejects, size_entry, would_exceed,
};
use crate::quota::definition::{QuotaDefinition, QuotaScope};
use crate::quota::message::{Message, QuotaKey, Reservation, reservations};
use crate::quota::plan::{
    Check, all_within_limits, entries_of, extend, instance, lemma_scope_count_fits, lemma_verdict_by_limits, plan,
    plan_from, scope_count, tiers_after, verdict, verdict_of,
};
use crate::quota::scope::{ScopeInstance, scope_counter_key, scope_key};

verus! {

/// Where a check stands.
#[derive(Clone, Copy, Debug, PartialEq, Eq, Structural)]
pub enum Stage {
    /// Waiting to learn whether the current rule matches the current scope.
    AwaitMatch,
    /// Waiting for the value of the current size counter.
    AwaitSize,
    /// Waiting for the value of the current count counter.
    AwaitCount,
    /// Every rule passed; the pending reservations are the ledger.
    Allowed,
    /// A rule rejected the message; nothing is reserved.
    Denied,
}

/// State of a check: the position in the plan, what is being waited for,
/// and the reservations gathered so far.
pub struct Progress {
    pub stage: Stage,
    pub tier: QuotaScope,
    pub definition: nat,
    pub scope: nat,
    pub key: Seq<u8>,
    pub pending: Seq<Reservation>,
}

impl Progress {
    /// The state of a check that accepted the message with `ledger`.
    pub open spec fn accepted(ledger: Seq<Reservation>) -> Progress {
        Progress {
            stage: Stage::Allowed,
            tier: QuotaScope::Recipient,
            definition: 0,
            scope: 0,
            key: Seq::empty(),
            pending: ledger,
        }
    }

    /// The state after the current rule rejected the message: the position
    /// stays, to tell which rule it was, and every reservation is dropped.
    pub open spec fn rejected(self) -> Progress {
        Progress { stage: Stage::Denied, key: Seq::empty(), pending: Seq::empty(), ..self }
    }

    /// The check has reached its verdict.
    pub open spec fn finished(self) -> bool {
        self.stage is Allowed || self.stage is Denied
    }

    /// The scope instance the current rule is checked against.
    pub open spec fn subject(self, message: &Message) -> ScopeInstance {
        instance(message, self.tier, self.scope)
    }

    /// While the check waits, its position names a rule of the current tier
    /// that has an expression and a scope instance of the message; the key
    /// is the counter key of the two once the rule has matched; the counter
    /// being waited for is one the rule limits.
    pub open spec fn wf(self, definitions: Seq<QuotaDefinition>, message: &Message) -> bool {
        let at_check = {
            &&& self.definition < definitions.len()
            &&& definitions[self.definition as int].scope == self.tier
            &&& definitions[self.definition as int].predicate@.len() > 0
            &&& self.scope < scope_count(message, self.tier)
        };
        let keyed = self.key == scope_counter_key(
            &definitions[self.definition as int],
            message,
            self.subject(message),
        );
        match self.stage {
            Stage::AwaitMatch => at_check && self.key == Seq::<u8>::empty(),
            Stage::AwaitSize => at_check && keyed && definitions[self.definition as int].max_size is Some,
            Stage::AwaitCount => at_check && keyed
                && definitions[self.definition as int].max_messages is Some,
            Stage::Allowed => self == Progress::accepted(self.pending),
            Stage::Denied => at_check && self == self.rejected(),
        }
    }

    /// What the check is waiting to learn, if anything.
    pub open spec fn question(self, message: &Message) -> Option<Question> {
        match self.stage {
            Stage::AwaitMatch => Some(
                Question::Matches { definition: self.definition, scope: self.subject(message) },
            ),
            Stage::AwaitSize => Some(Question::SizeUsed { key: self.key }),
            Stage::AwaitCount => Some(Question::CountUsed { key: self.key }),
            _ => None,
        }
    }

    /// A bound on the work left, ordered lexicographically: tiers to come,
    /// rules to come in the tier, scope instances to come for the rule,
    /// answers to come for the instance. It is zero once the check has
    /// finished.
    pub open spec fn effort(self, definitions: Seq<QuotaDefinition>, message: &Message) -> (
        nat,
        nat,
        nat,
        nat,
    ) {
        match self.stage {
            Stage::AwaitMatch => (
                tiers_after(self.tier),
                (definitions.len() - self.definition) as nat,
                (scope_count(message, self.tier) - self.scope) as nat,
                3,
            ),
            Stage::AwaitSize => (
                tiers_after(self.tier),
                (definitions.len() - self.definition) as nat,
                (scope_count(message, self.tier) - self.scope) as nat,
                2,
            ),
            Stage::AwaitCount => (
                tiers_after(self.tier),
                (definitions.len() - self.definition) as nat,
                (scope_count(message, self.tier) - self.scope) as nat,
                1,
            ),
            _ => (0, 0, 0, 0),
        }
    }
}

/// The state the check comes to rest in when it is about to look at the
/// position `(tier, d, s)`: the first position from there on whose rule
/// belongs to the tier and has an expression, waiting for the evaluator; or
/// acceptance when no such position is left.
pub open spec fn settle(
    definitions: Seq<QuotaDefinition>,
    message: &Message,
    tier: QuotaScope,
    d: nat,
    s: nat,
    pending: Seq<Reservation>,
) -> Progress
    decreases tiers_after(tier), definitions.len() - d,
{
    if d >= definitions.len() {
        match tier {
            QuotaScope::Sender => settle(definitions, message, QuotaScope::RecipientDomain, 0, 0, pending),
            QuotaScope::RecipientDomain => settle(definitions, message, QuotaScope::Recipient, 0, 0, pending),
            QuotaScope::Recipient => Progress::accepted(pending),
        }
    } else if definitions[d as int].scope != tier || s >= scope_count(message, tier)
        || definitions[d as int].predicate@.len() == 0 {
        settle(definitions, message, tier, d + 1, 0, pending)
    } else {
        Progress {
            stage: Stage::AwaitMatch,
            tier,
            definition: d,
            scope: s,
            key: Seq::empty(),
            pending,
        }
    }
}

/// The state at the start of a check.
pub open spec fn start(definitions: Seq<QuotaDefinition>, message: &Message) -> Progress {
    settle(definitions, message, QuotaScope::Sender, 0, 0, Seq::empty())
}

/// Where the check goes once the size limit of the current rule is dealt
/// with: to the count counter if the rule limits the number of messages,
/// else to the next position.
pub open spec fn after_size(
    definitions: Seq<QuotaDefinition>,
    message: &Message,
    p: Progress,
) -> Progress {
    if definitions[p.definition as int].max_messages is Some {
        Progress { stage: Stage::AwaitCount, ..p }
    } else {
        settle(definitions, message, p.tier, p.definition, p.scope + 1, p.pending)
    }
}

/// Where the check goes once the current rule has matched: to the size
/// counter if the rule limits size, else on as after the size limit.
pub open spec fn after_match(
    definitions: Seq<QuotaDefinition>,
    message: &Message,
    p: Progress,
) -> Progress {
    if definitions[p.definition as int].max_size is Some {
        Progress { stage: Stage::AwaitSize, ..p }
    } else {
        after_size(definitions, message, p)
    }
}

/// The state that follows `p` once `answer` has come in.
///
/// A rule that does not match is skipped. A counter that would go beyond
/// its limit rejects the message and drops every reservation. A counter
/// within its limit adds its reservation. A finished check stays as it is.
pub open spec fn step(
    definitions: Seq<QuotaDefinition>,
    message: &Message,
    p: Progress,
    answer: Answer,
) -> Progress {
    let definition = &definitions[p.definition as int];
    let id = p.subject(message).correlation();
    match p.stage {
        Stage::AwaitMatch => {
            if answer.matched() {
                after_match(
                    definitions,
                    message,
                    Progress { key: scope_counter_key(definition, message, p.subject(message)), ..p },
                )
            } else {
                settle(definitions, message, p.tier, p.definition, p.scope + 1, p.pending)
            }
        },
        Stage::AwaitSize => {
            if exceeds(answer.used(), message.size as int, definition.max_size->0) {
                p.rejected()
            } else {
                after_size(
                    definitions,
                    message,
                    Progress { pending: p.pending.push(Reservation::Size { key: p.key, id }), ..p },
                )
            }
        },
        Stage::AwaitCount => {
            if exceeds(answer.used(), 1, definition.max_messages->0) {
                p.rejected()
            } else {
                settle(
                    definitions,
                    message,
                    p.tier,
                    p.definition,
                    p.scope + 1,
                    p.pending.push(Reservation::Count { key: p.key, id }),
                )
            }
        },
        _ => p,
    }
}

/// The verdict a check in state `p` is heading for, in a world where the
/// collaborators answer as `world` says.
pub open spec fn outcome(
    definitions: Seq<QuotaDefinition>,
    message: &Message,
    world: spec_fn(Question) -> Answer,
    p: Progress,
) -> Option<Seq<Reservation>> {
    let definition = &definitions[p.definition as int];
    let id = p.subject(message).correlation();
    let rest = verdict_of(
        definitions,
        message,
        world,
        plan_from(definitions, message, p.tier, p.definition, p.scope + 1),
    );
    match p.stage {
        Stage::Allowed => Some(p.pending),
        Stage::Denied => None,
        Stage::AwaitMatch => extend(
            p.pending,
            verdict_of(
                definitions,
                message,
                world,
                plan_from(definitions, message, p.tier, p.definition, p.scope),
            ),
        ),
        Stage::AwaitSize => {
            if rule_rejects(
                definition,
                world(Question::SizeUsed { key: p.key }).used(),
                world(Question::CountUsed { key: p.key }).used(),
                message.size,
            ) {
                None
            } else {
                extend(
                    p.pending + size_entry(definition, p.key, id) + count_entry(definition, p.key, id),
                    rest,
                )
            }
        },
        Stage::AwaitCount => {
            if exceeds(world(Question::CountUsed { key: p.key }).used(), 1, definition.max_messages->0) {
                None
            } else {
                extend(p.pending + count_entry(definition, p.key, id), rest)
            }
        },
    }
}

/// Lexicographic order on bounds of the work left.
pub open spec fn less_effort(a: (nat, nat, nat, nat), b: (nat, nat, nat, nat)) -> bool {
    ||| a.0 < b.0
    ||| a.0 == b.0 && a.1 < b.1
    ||| a.0 == b.0 && a.1 == b.1 && a.2 < b.2
    ||| a.0 == b.0 && a.1 == b.1 && a.2 == b.2 && a.3 < b.3
}

/// A rule without an expression applies to nothing, so its checks add
/// nothing to the verdict.
proof fn lemma_rule_without_expression(
    definitions: Seq<QuotaDefinition>,
    message: &Message,
    world: spec_fn(Question) -> Answer,
    tier: QuotaScope,
    d: nat,
    s: nat,
)
    requires
        d < definitions.len(),
        definitions[d as int].predicate@.len() == 0,
    ensures
        verdict_of(definitions, message, world, plan_from(definitions, message, tier, d, s))
            == verdict_of(definitions, message, world, plan_from(definitions, message, tier, d + 1, 0)),
    decreases scope_count(message, tier) - s,
{
    if definitions[d as int].scope == tier && s < scope_count(message, tier) {
        let first = Check { definition: d, scope: instance(message, tier, s) };
        let rest = plan_from(definitions, message, tier, d, s + 1);
        let all = seq![first] + rest;
        assert(all.first() == first);
        assert(all.drop_first() == rest);
        lemma_rule_without_expression(definitions, message, world, tier, d, s + 1);
        let tail = verdict_of(definitions, message, world, rest);
        if tail is Some {
            assert(Seq::<Reservation>::empty() + tail->0 == tail->0);
        }
    }
}

/// Coming to rest neither loses nor adds anything: the verdict the check is
/// heading for is the reservations gathered so far followed by the verdict
/// of the checks from the position onward. The resting state is well formed,
/// and it lies at the position or after it.
pub proof fn lemma_settle(
    definitions: Seq<QuotaDefinition>,
    message: &Message,
    world: spec_fn(Question) -> Answer,
    tier: QuotaScope,
    d: nat,
    s: nat,
    pending: Seq<Reservation>,
)
    ensures
        outcome(definitions, message, world, settle(definitions, message, tier, d, s, pending))
            == extend(
            pending,
            verdict_of(definitions, message, world, plan_from(definitions, message, tier, d, s)),
        ),
        settle(definitions, message, tier, d, s, pending).wf(definitions, message),
        ({
            let q = settle(definitions, message, tier, d, s, pending);
            ||| q.finished()
            ||| tiers_after(q.tier) < tiers_after(tier)
            ||| q.tier == tier && q.definition > d
            ||| q.tier == tier && q.definition == d && q.scope == s
        }),
    decreases tiers_after(tier), definitions.len() - d,
{
    if d >= definitions.len() {
        match tier {
            QuotaScope::Sender => {
                lemma_settle(definitions, message, world, QuotaScope::RecipientDomain, 0, 0, pending);
            },
            QuotaScope::RecipientDomain => {
                lemma_settle(definitions, message, world, QuotaScope::Recipient, 0, 0, pending);
            },
            QuotaScope::Recipient => {
                assert(pending + Seq::<Reservation>::empty() == pending);
            },
        }
    } else if definitions[d as int].scope != tier || s >= scope_count(message, tier) {
        lemma_settle(definitions, message, world, tier, d + 1, 0, pending);
    } else if definitions[d as int].predicate@.len() == 0 {
        lemma_rule_without_expression(definitions, message, world, tier, d, s);
        lemma_settle(definitions, message, world, tier, d + 1, 0, pending);
    }
}

/// A check starts out well formed and heading for the verdict on the
/// message.
pub proof fn lemma_start(
    definitions: Seq<QuotaDefinition>,
    message: &Message,
    world: spec_fn(Question) -> Answer,
)
    ensures
        start(definitions, message).wf(definitions, message),
        outcome(definitions, message, world, start(definitions, message)) == verdict(
            definitions,
            message,
            world,
        ),
{
    lemma_settle(definitions, message, world, QuotaScope::Sender, 0, 0, Seq::empty());
    let v = verdict(definitions, message, world);
    if v is Some {
        assert(Seq::<Reservation>::empty() + v->0 == v->0);
    }
}

/// Taking the answer the world gives to the pending question keeps the
/// check heading for the same verdict.
pub proof fn lemma_step(
    definitions: Seq<QuotaDefinition>,
    message: &Message,
    world: spec_fn(Question) -> Answer,
    p: Progress,
)
    requires
        p.wf(definitions, message),
        !p.finished(),
    ensures
        outcome(
            definitions,
            message,
            world,
            step(definitions, message, p, world(p.question(message)->0)),
        ) == outcome(definitions, message, world, p),
{
    let definition = &definitions[p.definition as int];
    let id = p.subject(message).correlation();
    let rest = plan_from(definitions, message, p.tier, p.definition, p.scope + 1);
    let tail = verdict_of(definitions, message, world, rest);
    let size = size_entry(definition, scope_counter_key(definition, message, p.subject(message)), id);
    let count = count_entry(definition, scope_counter_key(definition, message, p.subject(message)), id);
    lemma_settle(definitions, message, world, p.tier, p.definition, p.scope + 1, p.pending);
    lemma_settle(
        definitions,
        message,
        world,
        p.tier,
        p.definition,
        p.scope + 1,
        p.pending.push(Reservation::Size { key: p.key, id }),
    );
    lemma_settle(
        definitions,
        message,
        world,
        p.tier,
        p.definition,
        p.scope + 1,
        p.pending.push(Reservation::Count { key: p.key, id }),
    );
    if tail is Some {
        let t = tail->0;
        assert(Seq::<Reservation>::empty() + t == t);
        assert(p.pending + (size + count + t) == p.pending + size + count + t);
        assert(p.pending + (size + count) + t == p.pending + size + count + t);
        assert(size + count + t == (size + count) + t);
    }
    assert(p.pending + (size + count) == p.pending + size + count);
    assert(p.pending + Seq::<Reservation>::empty() == p.pending);
    assert(p.pending.push(Reservation::Size { key: p.key, id }) == p.pending + seq![
        Reservation::Size { key: p.key, id },
    ]);
    assert(p.pending.push(Reservation::Count { key: p.key, id }) == p.pending + seq![
        Reservation::Count { key: p.key, id },
    ]);
    match p.stage {
        Stage::AwaitMatch => {
            let first = Check { definition: p.definition, scope: p.subject(message) };
            let all = seq![first] + rest;
            assert(all.first() == first);
            assert(all.drop_first() == rest);
            assert(plan_from(definitions, message, p.tier, p.definition, p.scope) == all);
        },
        _ => {},
    }
}

/// Every answer, whatever it is, takes a waiting check to a well-formed
/// state in which less work is left.
pub proof fn lemma_step_advances(
    definitions: Seq<QuotaDefinition>,
    message: &Message,
    p: Progress,
    answer: Answer,
)
    requires
        p.wf(definitions, message),
        !p.finished(),
    ensures
        step(definitions, message, p, answer).wf(definitions, message),
        less_effort(
            step(definitions, message, p, answer).effort(definitions, message),
            p.effort(definitions, message),
        ),
{
    let id = p.subject(message).correlation();
    let world = |q: Question| answer;
    lemma_settle(definitions, message, world, p.tier, p.definition, p.scope + 1, p.pending);
    lemma_settle(
        definitions,
        message,
        world,
        p.tier,
        p.definition,
        p.scope + 1,
        p.pending.push(Reservation::Size { key: p.key, id }),
    );
    lemma_settle(
        definitions,
        message,
        world,
        p.tier,
        p.definition,
        p.scope + 1,
        p.pending.push(Reservation::Count { key: p.key, id }),
    );
}

/// The state a check ends in when every question it puts is answered as
/// `world` says.
pub open spec fn run(
    definitions: Seq<QuotaDefinition>,
    message: &Message,
    world: spec_fn(Question) -> Answer,
    p: Progress,
) -> Progress
    decreases
        p.effort(definitions, message).0,
        p.effort(definitions, message).1,
        p.effort(definitions, message).2,
        p.effort(definitions, message).3,
    when p.wf(definitions, message)
{
    if p.finished() {
        p
    } else {
        proof {
            lemma_step_advances(definitions, message, p, world(p.question(message)->0));
        }
        run(definitions, message, world, step(definitions, message, p, world(p.question(message)->0)))
    }
}

/// A check that is driven to its end finishes, with the verdict it was
/// heading for.
pub proof fn lemma_run(
    definitions: Seq<QuotaDefinition>,
    message: &Message,
    world: spec_fn(Question) -> Answer,
    p: Progress,
)
    requires
        p.wf(definitions, message),
    ensures
        run(definitions, message, world, p).finished(),
        run(definitions, message, world, p).wf(definitions, message),
        outcome(definitions, message, world, run(definitions, message, world, p)) == outcome(
            definitions,
            message,
            world,
            p,
        ),
    decreases
        p.effort(definitions, message).0,
        p.effort(definitions, message).1,
        p.effort(definitions, message).2,
        p.effort(definitions, message).3,
{
    if !p.finished() {
        let answer = world(p.question(message)->0);
        lemma_step_advances(definitions, message, p, answer);
        lemma_step(definitions, message, world, p);
        lemma_run(definitions, message, world, step(definitions, message, p, answer));
    }
}

/// Starting a check and answering every question it puts as the world does
/// ends in the verdict on the message: acceptance with exactly the ledger of
/// the verdict, or rejection with nothing reserved.
pub proof fn lemma_run_reaches_verdict(
    definitions: Seq<QuotaDefinition>,
    message: &Message,
    world: spec_fn(Question) -> Answer,
)
    ensures
        match verdict(definitions, message, world) {
            Some(ledger) => {
                &&& run(definitions, message, world, start(definitions, message)).stage is Allowed
                &&& run(definitions, message, world, start(definitions, message)).pending == ledger
            },
            None => {
                &&& run(definitions, message, world, start(definitions, message)).stage is Denied
                &&& run(definitions, message, world, start(definitions, message)).pending.len() == 0
            },
        },
{
    lemma_start(definitions, message, world);
    lemma_run(definitions, message, world, start(definitions, message));
}

/// What a check reports when asked how it stands.
#[derive(Debug, PartialEq, Eq)]
pub enum Step {
    /// The check waits for the answer to this query.
    Ask(Query),
    /// The message is accepted.
    Allowed,
    /// The message is rejected by the rule at index `definition`, checked
    /// against `scope`.
    Denied { definition: usize, scope: ScopeInstance },
}

/// A running admission check of one message against a list of rules.
pub struct QuotaCheck<'a> {
    definitions: &'a Vec<QuotaDefinition>,
    message: &'a Message,
    stage: Stage,
    tier: QuotaScope,
    definition: usize,
    scope: usize,
    key: Vec<u8>,
    pending: Vec<QuotaKey>,
}

impl<'a> View for QuotaCheck<'a> {
    type V = Progress;

    closed spec fn view(&self) -> Progress {
        Progress {
            stage: self.stage,
            tier: self.tier,
            definition: self.definition as nat,
            scope: self.scope as nat,
            key: self.key@,
            pending: reservations(self.pending@),
        }
    }
}

/// Computes how many scope instances `message` has at `tier`.
fn count_scopes(message: &Message, tier: QuotaScope) -> (n: usize)
    ensures
        n == scope_count(message, tier),
{
    match tier {
        QuotaScope::Sender => 1,
        QuotaScope::RecipientDomain => message.domains.len(),
        QuotaScope::Recipient => message.recipients.len(),
    }
}

/// Computes the scope instance at position `s` of `tier`.
fn instance_at(message: &Message, tier: QuotaScope, s: usize) -> (scope: ScopeInstance)
    requires
        s < scope_count(message, tier),
    ensures
        scope == instance(message, tier, s as nat),
        scope.in_message(message),
{
    match tier {
        QuotaScope::Sender => ScopeInstance::Sender,
        QuotaScope::RecipientDomain => ScopeInstance::RecipientDomain { domain_idx: s },
        QuotaScope::Recipient => ScopeInstance::Recipient {
            rcpt_idx: s,
            domain_idx: message.recipients[s].domain_idx,
        },
    }
}

/// An empty list of reservations.
fn no_keys() -> (keys: Vec<QuotaKey>)
    ensures
        reservations(keys@) == Seq::<Reservation>::empty(),
{
    let keys: Vec<QuotaKey> = Vec::new();
    assert(reservations(keys@) == Seq::<Reservation>::empty());
    keys
}

impl<'a> QuotaCheck<'a> {
    #[verifier::type_invariant]
    spec fn well_formed(self) -> bool {
        self@.wf(self.definitions@, self.message)
    }

    /// The rules the message is checked against.
    pub closed spec fn rules(&self) -> Seq<QuotaDefinition> {
        self.definitions@
    }

    /// The message being checked.
    pub closed spec fn subject(&self) -> &Message {
        self.message
    }

    /// Brings a check to rest at the first position from `(tier, d, s)` on
    /// that calls for a question.
    fn rest_at(
        definitions: &'a Vec<QuotaDefinition>,
        message: &'a Message,
        tier: QuotaScope,
        d: usize,
        s: usize,
        pending: Vec<QuotaKey>,
    ) -> (check: QuotaCheck<'a>)
        ensures
            check@ == settle(definitions@, message, tier, d as nat, s as nat, reservations(pending@)),
            check.rules() == definitions@,
            check.subject() == message,
    {
        let mut t = tier;
        let mut i = d;
        let mut j = s;
        loop
            invariant
                settle(definitions@, message, t, i as nat, j as nat, reservations(pending@)) == settle(
                    definitions@,
                    message,
                    tier,
                    d as nat,
                    s as nat,
                    reservations(pending@),
                ),
            decreases tiers_after(t), definitions@.len() - i,
        {
            if i >= definitions.len() {
                match t {
                    QuotaScope::Sender => {
                        t = QuotaScope::RecipientDomain;
                        i = 0;
                        j = 0;
                    },
                    QuotaScope::RecipientDomain => {
                        t = QuotaScope::Recipient;
                        i = 0;
                        j = 0;
                    },
                    QuotaScope::Recipient => {
                        return QuotaCheck {
                            definitions,
                            message,
                            stage: Stage::Allowed,
                            tier: QuotaScope::Recipient,
                            definition: 0,
                            scope: 0,
                            key: Vec::new(),
                            pending,
                        };
                    },
                }
            } else if definitions[i].scope != t || j >= count_scopes(message, t)
                || definitions[i].predicate.as_str().is_empty() {
                i = i + 1;
                j = 0;
            } else {
                return QuotaCheck {
                    definitions,
                    message,
                    stage: Stage::AwaitMatch,
                    tier: t,
                    definition: i,
                    scope: j,
                    key: Vec::new(),
                    pending,
                };
            }
        }
    }

    /// Starts the check of `message` against `definitions`. Nothing is
    /// reserved yet, and the check rests at its first question, or has
    /// already accepted the message if no rule calls for one.
    pub fn begin(definitions: &'a Vec<QuotaDefinition>, message: &'a Message) -> (check: QuotaCheck<'a>)
        ensures
            check@ == start(definitions@, message),
            check@.wf(definitions@, message),
            check.rules() == definitions@,
            check.subject() == message,
    {
        proof {
            lemma_start(definitions@, message, |q: Question| Answer::Unavailable);
        }
        QuotaCheck::rest_at(definitions, message, QuotaScope::Sender, 0, 0, no_keys())
    }

    /// Reports how the check stands: the query it waits for, or its verdict.
    pub fn next(&self) -> (step: Step)
        ensures
            self@.wf(self.rules(), self.subject()),
            match step {
                Step::Ask(query) => self@.question(self.subject()) == Some(query@),
                Step::Allowed => self@.stage is Allowed,
                Step::Denied { definition, scope } => {
                    &&& self@.stage is Denied
                    &&& definition == self@.definition
                    &&& scope == self@.subject(self.subject())
                },
            },
    {
        proof {
            use_type_invariant(self);
        }
        match self.stage {
            Stage::AwaitMatch => Step::Ask(
                Query::Matches {
                    definition: self.definition,
                    scope: instance_at(self.message, self.tier, self.scope),
                },
            ),
            Stage::AwaitSize => Step::Ask(Query::SizeUsed { key: copy_key(&self.key) }),
            Stage::AwaitCount => Step::Ask(Query::CountUsed { key: copy_key(&self.key) }),
            Stage::Allowed => Step::Allowed,
            Stage::Denied => Step::Denied {
                definition: self.definition,
                scope: instance_at(self.message, self.tier, self.scope),
            },
        }
    }

    /// Takes the answer to the pending query and moves on to the next
    /// question or to the verdict. An answer of the wrong kind counts as a
    /// failure of the collaborator: no match, or no usage. A finished check
    /// ignores the answer.
    pub fn resume(self, answer: Answer) -> (next: QuotaCheck<'a>)
        ensures
            next@ == step(self.rules(), self.subject(), self@, answer),
            next@.wf(self.rules(), self.subject()),
            next.rules() == self.rules(),
            next.subject() == self.subject(),
    {
        proof {
            use_type_invariant(&self);
            if !self@.finished() {
                lemma_step_advances(self.definitions@, self.message, self@, answer);
            }
            lemma_scope_count_fits(self.message, self.tier);
        }
        let ghost before = self@;
        let QuotaCheck { definitions, message, stage, tier, definition, scope, key, pending } = self;
        match stage {
            Stage::AwaitMatch => {
                if answer.is_match() {
                    let subject = instance_at(message, tier, scope);
                    let key = scope_key(&definitions[definition], message, &subject);
                    if definitions[definition].max_size.is_some() {
                        QuotaCheck {
                            definitions,
                            message,
                            stage: Stage::AwaitSize,
                            tier,
                            definition,
                            scope,
                            key,
                            pending,
                        }
                    } else if definitions[definition].max_messages.is_some() {
                        QuotaCheck {
                            definitions,
                            message,
                            stage: Stage::AwaitCount,
                            tier,
                            definition,
                            scope,
                            key,
                            pending,
                        }
                    } else {
                        QuotaCheck::rest_at(definitions, message, tier, definition, scope + 1, pending)
                    }
                } else {
                    QuotaCheck::rest_at(definitions, message, tier, definition, scope + 1, pending)
                }
            },
            Stage::AwaitSize => {
                let limit = match definitions[definition].max_size {
                    Some(limit) => limit,
                    None => 0,
                };
                if would_exceed(answer.usage(), message.size, limit) {
                    QuotaCheck {
                        definitions,
                        message,
                        stage: Stage::Denied,
                        tier,
                        definition,
                        scope,
                        key: Vec::new(),
                        pending: no_keys(),
                    }
                } else {
                    let subject = instance_at(message, tier, scope);
                    let mut pending = pending;
                    let ghost held = reservations(pending@);
                    pending.push(QuotaKey::Size { key: copy_key(&key), id: subject.correlation_id() });
                    assert(reservations(pending@) == held.push(
                        Reservation::Size { key: key@, id: subject.correlation() },
                    ));
                    if definitions[definition].max_messages.is_some() {
                        QuotaCheck {
                            definitions,
                            message,
                            stage: Stage::AwaitCount,
                            tier,
                            definition,
                            scope,
                            key,
                            pending,
                        }
                    } else {
                        QuotaCheck::rest_at(definitions, message, tier, definition, scope + 1, pending)
                    }
                }
            },
            Stage::AwaitCount => {
                let limit = match definitions[definition].max_messages {
                    Some(limit) => limit,
                    None => 0,
                };
                if would_exceed(answer.usage(), 1, limit) {
                    QuotaCheck {
                        definitions,
                        message,
                        stage: Stage::Denied,
                        tier,
                        definition,
                        scope,
                        key: Vec::new(),
                        pending: no_keys(),
                    }
                } else {
                    let subject = instance_at(message, tier, scope);
                    let mut pending = pending;
                    let ghost held = reservations(pending@);
                    pending.push(QuotaKey::Count { key, id: subject.correlation_id() });
                    assert(reservations(pending@) == held.push(
                        Reservation::Count { key: before.key, id: subject.correlation() },
                    ));
                    QuotaCheck::rest_at(definitions, message, tier, definition, scope + 1, pending)
                }
            },
            Stage::Allowed => QuotaCheck {
                definitions,
                message,
                stage,
                tier,
                definition,
                scope,
                key,
                pending,
            },
            Stage::Denied => QuotaCheck {
                definitions,
                message,
                stage,
                tier,
                definition,
                scope,
                key,
                pending,
            },
        }
    }

    /// Ends the check and hands out the ledger if the message was accepted.
    /// A check that rejected the message, or that has not finished, hands
    /// out nothing.
    pub fn into_ledger(self) -> (ledger: Option<Vec<QuotaKey>>)
        ensures
            match ledger {
                Some(keys) => self@.stage is Allowed && reservations(keys@) == self@.pending,
                None => !(self@.stage is Allowed),
            },
    {
        let QuotaCheck { stage, pending, .. } = self;
        match stage {
            Stage::Allowed => Some(pending),
            _ => None,
        }
    }
}

/// The collaborator behind `ask` answers every query as `world` says.
pub open spec fn answers_as<F: Fn(&Query) -> Answer>(
    ask: F,
    world: spec_fn(Question) -> Answer,
) -> bool {
    forall|query: Query, answer: Answer| #[trigger]
        call_ensures(ask, (&query,), answer) ==> world(query@) == answer
}

/// Checks `message` against every rule of `definitions`, putting each
/// question to `ask` as it comes up, and returns whether the message is
/// accepted.
///
/// The rules are checked tier by tier: the sender's, then the domains', then
/// the recipients', each rule against each scope instance in message order.
/// The first limit that would be exceeded rejects the message: nothing more
/// is asked and the message is left exactly as it was. If no limit would be
/// exceeded the message is accepted and its ledger is replaced by the
/// reservations of the rules that applied: one per limit each of them sets.
/// No counter is written either way.
pub fn has_quota<F: Fn(&Query) -> Answer>(
    definitions: &Vec<QuotaDefinition>,
    message: &mut Message,
    ask: F,
) -> (allowed: bool)
    requires
        forall|query: Query| #[trigger] call_requires(ask, (&query,)),
    ensures
        final(message).same_envelope(old(message)),
        !allowed ==> final(message).quota_keys == old(message).quota_keys,
        forall|world: spec_fn(Question) -> Answer| #[trigger]
            answers_as(ask, world) ==> {
                &&& allowed == verdict(definitions@, old(message), world) is Some
                &&& allowed ==> final(message).ledger() == verdict(definitions@, old(message), world)->0
            },
        forall|world: spec_fn(Question) -> Answer| #[trigger]
            answers_as(ask, world) && all_within_limits(definitions@, old(message), world) ==> {
                &&& allowed
                &&& final(message).ledger() == entries_of(
                    definitions@,
                    old(message),
                    world,
                    plan(definitions@, old(message)),
                )
            },
        forall|world: spec_fn(Question) -> Answer| #[trigger]
            answers_as(ask, world) && !all_within_limits(definitions@, old(message), world) ==> {
                &&& !allowed
                &&& final(message).ledger() == old(message).ledger()
            },
{
    let ghost before = *message;
    let mut check = QuotaCheck::begin(definitions, &*message);
    proof {
        assert forall|world: spec_fn(Question) -> Answer| #[trigger]
            answers_as(ask, world) implies outcome(definitions@, &before, world, check@) == verdict(
            definitions@,
            &before,
            world,
        ) by {
            lemma_start(definitions@, &before, world);
        }
    }
    loop
        invariant
            check.rules() == definitions@,
            check.subject() == &before,
            check@.wf(definitions@, &before),
            forall|query: Query| #[trigger] call_requires(ask, (&query,)),
            forall|world: spec_fn(Question) -> Answer| #[trigger]
                answers_as(ask, world) ==> outcome(definitions@, &before, world, check@) == verdict(
                    definitions@,
                    &before,
                    world,
                ),
        ensures
            check@.finished(),
        decreases
            check@.effort(definitions@, &before).0,
            check@.effort(definitions@, &before).1,
            check@.effort(definitions@, &before).2,
            check@.effort(definitions@, &before).3,
    {
        match check.next() {
            Step::Ask(query) => {
                let answer = ask(&query);
                proof {
                    lemma_step_advances(definitions@, &before, check@, answer);
                    assert forall|world: spec_fn(Question) -> Answer| #[trigger]
                        answers_as(ask, world) implies outcome(
                        definitions@,
                        &before,
                        world,
                        step(definitions@, &before, check@, answer),
                    ) == verdict(definitions@, &before, world) by {
                        assert(call_ensures(ask, (&query,), answer));
                        lemma_step(definitions@, &before, world, check@);
                    }
                }
                check = check.resume(answer);
            },
            _ => {
                break ;
            },
        }
    }
    proof {
        assert forall|world: spec_fn(Question) -> Answer| #[trigger]
            answers_as(ask, world) implies (all_within_limits(definitions@, &before, world) ==> verdict(
            definitions@,
            &before,
            world,
        ) == Some(entries_of(definitions@, &before, world, plan(definitions@, &before)))) && (
        !all_within_limits(definitions@, &before, world) ==> verdict(definitions@, &before, world) is None)
        by {
            lemma_verdict_by_limits(definitions@, &before, world);
        }
    }
    match check.into_ledger() {
        Some(keys) => {
            message.quota_keys = keys;
            true
        },
        None => false,
    }
}

} // verus!
