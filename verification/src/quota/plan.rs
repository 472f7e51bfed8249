//! The order in which the rules are checked against the scope instances of a
//! message, and the verdict that the checks add up to.

use vstd::prelude::*;
use crate::quota::check::{Answer, Question, check_outcome, rule_applies, size_entry, count_entry};
use crate::quota::definition::{QuotaDefinition, QuotaScope};
use crate::quota::message::{Message, Reservation};
use crate::quota::scope::{ScopeInstance, scope_counter_key};

verus! {

/// One step of the plan: the rule at index `definition` checked against
/// `scope`.
pub struct Check {
    pub definition: nat,
    pub scope: ScopeInstance,
}

/// How many tiers follow `tier`.
pub open spec fn tiers_after(tier: QuotaScope) -> nat {
    match tier {
        QuotaScope::Sender => 2,
        QuotaScope::RecipientDomain => 1,
        QuotaScope::Recipient => 0,
    }
}

/// How many scope instances `message` has at `tier`: the sender, each of its
/// domains, or each of its recipients.
pub open spec fn scope_count(message: &Message, tier: QuotaScope) -> nat {
    match tier {
        QuotaScope::Sender => 1,
        QuotaScope::RecipientDomain => message.domains@.len(),
        QuotaScope::Recipient => message.recipients@.len(),
    }
}

/// The scope instance at position `s` of `tier`, in message order.
pub open spec fn instance(message: &Message, tier: QuotaScope, s: nat) -> ScopeInstance {
    match tier {
        QuotaScope::Sender => ScopeInstance::Sender,
        QuotaScope::RecipientDomain => ScopeInstance::RecipientDomain { domain_idx: s as usize },
        QuotaScope::Recipient => ScopeInstance::Recipient {
            rcpt_idx: s as usize,
            domain_idx: message.recipients@[s as int].domain_idx,
        },
    }
}

/// The checks still to be made from a position onward. The position is a
/// tier, a rule and a scope instance of that tier. Within a tier the rules
/// are taken in the order of the configuration, skipping those of other
/// tiers; each rule is checked against the tier's scope instances in message
/// order. The sender tier comes first, then the domains, then the
/// recipients.
pub open spec fn plan_from(
    definitions: Seq<QuotaDefinition>,
    message: &Message,
    tier: QuotaScope,
    d: nat,
    s: nat,
) -> Seq<Check>
    decreases tiers_after(tier), definitions.len() - d, scope_count(message, tier) - s,
{
    if d >= definitions.len() {
        match tier {
            QuotaScope::Sender => plan_from(definitions, message, QuotaScope::RecipientDomain, 0, 0),
            QuotaScope::RecipientDomain => plan_from(definitions, message, QuotaScope::Recipient, 0, 0),
            QuotaScope::Recipient => Seq::empty(),
        }
    } else if definitions[d as int].scope != tier || s >= scope_count(message, tier) {
        plan_from(definitions, message, tier, d + 1, 0)
    } else {
        seq![Check { definition: d, scope: instance(message, tier, s) }] + plan_from(
            definitions,
            message,
            tier,
            d,
            s + 1,
        )
    }
}

/// All the checks a message has to pass, in order.
pub open spec fn plan(definitions: Seq<QuotaDefinition>, message: &Message) -> Seq<Check> {
    plan_from(definitions, message, QuotaScope::Sender, 0, 0)
}

/// Whether the rule of `check` applies, in a world where the collaborators
/// answer as `world` says.
pub open spec fn check_applies(
    definitions: Seq<QuotaDefinition>,
    world: spec_fn(Question) -> Answer,
    check: Check,
) -> bool {
    rule_applies(
        &definitions[check.definition as int],
        world(Question::Matches { definition: check.definition, scope: check.scope }).matched(),
    )
}

/// Outcome of one check of the plan, in a world where the collaborators
/// answer as `world` says: `None` when the rule rejects the message,
/// otherwise the reservations it contributes.
pub open spec fn check_result(
    definitions: Seq<QuotaDefinition>,
    message: &Message,
    world: spec_fn(Question) -> Answer,
    check: Check,
) -> Option<Seq<Reservation>> {
    let definition = &definitions[check.definition as int];
    let key = scope_counter_key(definition, message, check.scope);
    check_outcome(
        definition,
        world(Question::Matches { definition: check.definition, scope: check.scope }).matched(),
        world(Question::SizeUsed { key }).used(),
        world(Question::CountUsed { key }).used(),
        key,
        message.size,
        check.scope.correlation(),
    )
}

/// The reservations a check would contribute if its limits were not
/// exceeded: none when the rule does not apply, else one per limit the rule
/// sets.
pub open spec fn check_entries(
    definitions: Seq<QuotaDefinition>,
    message: &Message,
    world: spec_fn(Question) -> Answer,
    check: Check,
) -> Seq<Reservation> {
    let definition = &definitions[check.definition as int];
    let key = scope_counter_key(definition, message, check.scope);
    if check_applies(definitions, world, check) {
        size_entry(definition, key, check.scope.correlation()) + count_entry(
            definition,
            key,
            check.scope.correlation(),
        )
    } else {
        Seq::empty()
    }
}

/// `more` appended to `pending`, unless `more` is a rejection.
pub open spec fn extend(pending: Seq<Reservation>, more: Option<Seq<Reservation>>) -> Option<
    Seq<Reservation>,
> {
    match more {
        Some(entries) => Some(pending + entries),
        None => None,
    }
}

/// The verdict of a sequence of checks: `None` as soon as one of them
/// rejects the message, otherwise the reservations of all of them, in order.
pub open spec fn verdict_of(
    definitions: Seq<QuotaDefinition>,
    message: &Message,
    world: spec_fn(Question) -> Answer,
    checks: Seq<Check>,
) -> Option<Seq<Reservation>>
    decreases checks.len(),
{
    if checks.len() == 0 {
        Some(Seq::empty())
    } else {
        match check_result(definitions, message, world, checks.first()) {
            None => None,
            Some(entries) => extend(
                entries,
                verdict_of(definitions, message, world, checks.drop_first()),
            ),
        }
    }
}

/// The verdict on a message, in a world where the collaborators answer as
/// `world` says: `None` when the message is rejected, otherwise the ledger
/// it is accepted with.
pub open spec fn verdict(
    definitions: Seq<QuotaDefinition>,
    message: &Message,
    world: spec_fn(Question) -> Answer,
) -> Option<Seq<Reservation>> {
    verdict_of(definitions, message, world, plan(definitions, message))
}

/// The reservations of a sequence of checks that all pass, in order.
pub open spec fn entries_of(
    definitions: Seq<QuotaDefinition>,
    message: &Message,
    world: spec_fn(Question) -> Answer,
    checks: Seq<Check>,
) -> Seq<Reservation>
    decreases checks.len(),
{
    if checks.len() == 0 {
        Seq::empty()
    } else {
        check_entries(definitions, message, world, checks.first()) + entries_of(
            definitions,
            message,
            world,
            checks.drop_first(),
        )
    }
}

/// When no check of a sequence rejects the message, the verdict is an
/// acceptance, and the ledger holds exactly the reservations of the checks
/// whose rule applies: for each of them one entry per limit the rule sets,
/// in the order of the checks.
pub proof fn lemma_all_within_limits(
    definitions: Seq<QuotaDefinition>,
    message: &Message,
    world: spec_fn(Question) -> Answer,
    checks: Seq<Check>,
)
    requires
        forall|i: int|
            0 <= i < checks.len() ==> check_result(definitions, message, world, #[trigger] checks[i]) is Some,
    ensures
        verdict_of(definitions, message, world, checks) == Some(
            entries_of(definitions, message, world, checks),
        ),
    decreases checks.len(),
{
    if checks.len() > 0 {
        let rest = checks.drop_first();
        assert forall|i: int| 0 <= i < rest.len() implies check_result(
            definitions,
            message,
            world,
            #[trigger] rest[i],
        ) is Some by {
            assert(rest[i] == checks[i + 1]);
        }
        lemma_all_within_limits(definitions, message, world, rest);
        assert(check_result(definitions, message, world, checks[0]) is Some);
    }
}

/// When any single check of a sequence rejects the message, the verdict is a
/// rejection.
pub proof fn lemma_one_over_limit(
    definitions: Seq<QuotaDefinition>,
    message: &Message,
    world: spec_fn(Question) -> Answer,
    checks: Seq<Check>,
    i: int,
)
    requires
        0 <= i < checks.len(),
        check_result(definitions, message, world, checks[i]) is None,
    ensures
        verdict_of(definitions, message, world, checks) is None,
    decreases checks.len(),
{
    if i > 0 {
        let rest = checks.drop_first();
        assert(rest[i - 1] == checks[i]);
        lemma_one_over_limit(definitions, message, world, rest, i - 1);
    }
}

/// No check of the plan would take a counter beyond its limit, in a world
/// where the collaborators answer as `world` says.
pub open spec fn all_within_limits(
    definitions: Seq<QuotaDefinition>,
    message: &Message,
    world: spec_fn(Question) -> Answer,
) -> bool {
    forall|i: int|
        0 <= i < plan(definitions, message).len() ==> check_result(
            definitions,
            message,
            world,
            #[trigger] plan(definitions, message)[i],
        ) is Some
}

/// A message is accepted exactly when every check of its plan stays within
/// its limits, and then with one reservation per limit of each rule that
/// applied; a single check that would exceed its limit rejects it.
pub proof fn lemma_verdict_by_limits(
    definitions: Seq<QuotaDefinition>,
    message: &Message,
    world: spec_fn(Question) -> Answer,
)
    ensures
        all_within_limits(definitions, message, world) ==> verdict(definitions, message, world)
            == Some(entries_of(definitions, message, world, plan(definitions, message))),
        !all_within_limits(definitions, message, world) ==> verdict(definitions, message, world) is None,
{
    let checks = plan(definitions, message);
    if all_within_limits(definitions, message, world) {
        lemma_all_within_limits(definitions, message, world, checks);
    } else {
        let i = choose|i: int|
            0 <= i < checks.len() && check_result(definitions, message, world, #[trigger] checks[i]) is None;
        lemma_one_over_limit(definitions, message, world, checks, i);
    }
}

/// The check of the rule at index `d` against the instance at position `s`
/// of the rule's tier.
pub open spec fn check_at(
    definitions: Seq<QuotaDefinition>,
    message: &Message,
    d: nat,
    s: nat,
) -> Check {
    Check { definition: d, scope: instance(message, definitions[d as int].scope, s) }
}

/// The plan holds the checks of every rule against every scope instance of
/// the rule's tier, and nothing else.
pub proof fn lemma_plan_covers(definitions: Seq<QuotaDefinition>, message: &Message)
    ensures
        forall|d: nat, s: nat|
            d < definitions.len() && s < scope_count(message, definitions[d as int].scope) ==> plan(
                definitions,
                message,
            ).contains(#[trigger] check_at(definitions, message, d, s)),
        forall|i: int|
            0 <= i < plan(definitions, message).len() ==> listed(
                definitions,
                message,
                #[trigger] plan(definitions, message)[i],
            ),
{
    lemma_plan_from_lists(definitions, message, QuotaScope::Sender, 0, 0);
    assert forall|d: nat, s: nat|
        d < definitions.len() && s < scope_count(message, definitions[d as int].scope) implies plan(
        definitions,
        message,
    ).contains(#[trigger] check_at(definitions, message, d, s)) by {
        lemma_plan_from_holds(definitions, message, QuotaScope::Sender, 0, 0, d, s);
    }
}

/// `check` pairs a rule with a scope instance of the rule's tier.
pub open spec fn listed(definitions: Seq<QuotaDefinition>, message: &Message, check: Check) -> bool {
    &&& check.definition < definitions.len()
    &&& exists|s: nat|
        s < scope_count(message, definitions[check.definition as int].scope) && check.scope
            == instance(message, definitions[check.definition as int].scope, s)
}

proof fn lemma_plan_from_lists(
    definitions: Seq<QuotaDefinition>,
    message: &Message,
    tier: QuotaScope,
    d: nat,
    s: nat,
)
    ensures
        forall|i: int|
            0 <= i < plan_from(definitions, message, tier, d, s).len() ==> listed(
                definitions,
                message,
                #[trigger] plan_from(definitions, message, tier, d, s)[i],
            ),
    decreases tiers_after(tier), definitions.len() - d, scope_count(message, tier) - s,
{
    let here = plan_from(definitions, message, tier, d, s);
    if d >= definitions.len() {
        match tier {
            QuotaScope::Sender => {
                lemma_plan_from_lists(definitions, message, QuotaScope::RecipientDomain, 0, 0);
                assert(here == plan_from(definitions, message, QuotaScope::RecipientDomain, 0, 0));
            },
            QuotaScope::RecipientDomain => {
                lemma_plan_from_lists(definitions, message, QuotaScope::Recipient, 0, 0);
                assert(here == plan_from(definitions, message, QuotaScope::Recipient, 0, 0));
            },
            QuotaScope::Recipient => {
                assert(here.len() == 0);
            },
        }
    } else if definitions[d as int].scope != tier || s >= scope_count(message, tier) {
        lemma_plan_from_lists(definitions, message, tier, d + 1, 0);
        assert(plan_from(definitions, message, tier, d, s) == plan_from(
            definitions,
            message,
            tier,
            d + 1,
            0,
        ));
    } else {
        lemma_plan_from_lists(definitions, message, tier, d, s + 1);
        let first = Check { definition: d, scope: instance(message, tier, s) };
        let rest = plan_from(definitions, message, tier, d, s + 1);
        assert(listed(definitions, message, first));
        assert(plan_from(definitions, message, tier, d, s) == seq![first] + rest);
        assert forall|i: int| 0 <= i < (seq![first] + rest).len() implies listed(
            definitions,
            message,
            #[trigger] (seq![first] + rest)[i],
        ) by {
            if i > 0 {
                assert((seq![first] + rest)[i] == rest[i - 1]);
            } else {
                assert((seq![first] + rest)[i] == first);
            }
        }
    }
}

/// The position `(tier, d, s)` comes no later than the check of rule `e`
/// against the instance at `u` of the rule's tier.
spec fn not_past(definitions: Seq<QuotaDefinition>, tier: QuotaScope, d: nat, s: nat, e: nat, u: nat) -> bool {
    let target = definitions[e as int].scope;
    ||| tiers_after(tier) > tiers_after(target)
    ||| tier == target && d < e
    ||| tier == target && d == e && s <= u
}

proof fn lemma_plan_from_holds(
    definitions: Seq<QuotaDefinition>,
    message: &Message,
    tier: QuotaScope,
    d: nat,
    s: nat,
    e: nat,
    u: nat,
)
    requires
        e < definitions.len(),
        u < scope_count(message, definitions[e as int].scope),
        not_past(definitions, tier, d, s, e, u),
    ensures
        plan_from(definitions, message, tier, d, s).contains(
            Check { definition: e, scope: instance(message, definitions[e as int].scope, u) },
        ),
    decreases tiers_after(tier), definitions.len() - d, scope_count(message, tier) - s,
{
    let target = Check { definition: e, scope: instance(message, definitions[e as int].scope, u) };
    if d >= definitions.len() {
        match tier {
            QuotaScope::Sender => lemma_plan_from_holds(
                definitions,
                message,
                QuotaScope::RecipientDomain,
                0,
                0,
                e,
                u,
            ),
            QuotaScope::RecipientDomain => lemma_plan_from_holds(
                definitions,
                message,
                QuotaScope::Recipient,
                0,
                0,
                e,
                u,
            ),
            QuotaScope::Recipient => {},
        }
    } else if definitions[d as int].scope != tier || s >= scope_count(message, tier) {
        lemma_plan_from_holds(definitions, message, tier, d + 1, 0, e, u);
    } else {
        let first = Check { definition: d, scope: instance(message, tier, s) };
        let rest = plan_from(definitions, message, tier, d, s + 1);
        if d == e && s == u {
            assert((seq![first] + rest)[0] == target);
        } else {
            lemma_plan_from_holds(definitions, message, tier, d, s + 1, e, u);
            let i = choose|i: int| 0 <= i < rest.len() && rest[i] == target;
            assert((seq![first] + rest)[i + 1] == target);
        }
    }
}

/// A message never has more scope instances than an index can address.
pub proof fn lemma_scope_count_fits(message: &Message, tier: QuotaScope)
    ensures
        scope_count(message, tier) <= usize::MAX,
{
    assert(message.domains.len() == message.domains@.len());
    assert(message.recipients.len() == message.recipients@.len());
}

/// The position of a scope instance within its tier.
pub open spec fn index_of(scope: ScopeInstance) -> int {
    match scope {
        ScopeInstance::Sender => 0,
        ScopeInstance::RecipientDomain { domain_idx } => domain_idx as int,
        ScopeInstance::Recipient { rcpt_idx, .. } => rcpt_idx as int,
    }
}

/// `check` lies at the position `(tier, d, s)` or after it: in a later
/// tier, or in the same tier at a later rule, or at the same rule at the
/// same or a later scope instance.
pub open spec fn at_or_after(
    definitions: Seq<QuotaDefinition>,
    check: Check,
    tier: QuotaScope,
    d: nat,
    s: nat,
) -> bool {
    let own = definitions[check.definition as int].scope;
    ||| tiers_after(own) < tiers_after(tier)
    ||| own == tier && check.definition > d
    ||| own == tier && check.definition == d && index_of(check.scope) >= s
}

/// `first` is checked before `second`: its rule belongs to an earlier tier,
/// or to the same tier and comes earlier in the configuration, or it is the
/// same rule checked against an earlier scope instance.
pub open spec fn earlier(definitions: Seq<QuotaDefinition>, first: Check, second: Check) -> bool {
    at_or_after(
        definitions,
        second,
        definitions[first.definition as int].scope,
        first.definition,
        (index_of(first.scope) + 1) as nat,
    )
}

/// The checks from a position onward all lie at the position or after it,
/// and they follow each other in the order of tier, rule and scope instance.
pub proof fn lemma_plan_from_ordered(
    definitions: Seq<QuotaDefinition>,
    message: &Message,
    tier: QuotaScope,
    d: nat,
    s: nat,
)
    ensures
        forall|i: int|
            0 <= i < plan_from(definitions, message, tier, d, s).len() ==> at_or_after(
                definitions,
                #[trigger] plan_from(definitions, message, tier, d, s)[i],
                tier,
                d,
                s,
            ),
        forall|i: int, j: int|
            0 <= i < j < plan_from(definitions, message, tier, d, s).len() ==> earlier(
                definitions,
                #[trigger] plan_from(definitions, message, tier, d, s)[i],
                #[trigger] plan_from(definitions, message, tier, d, s)[j],
            ),
    decreases tiers_after(tier), definitions.len() - d, scope_count(message, tier) - s,
{
    let here = plan_from(definitions, message, tier, d, s);
    lemma_plan_from_lists(definitions, message, tier, d, s);
    if d >= definitions.len() {
        match tier {
            QuotaScope::Sender => {
                lemma_plan_from_ordered(definitions, message, QuotaScope::RecipientDomain, 0, 0);
                assert(here == plan_from(definitions, message, QuotaScope::RecipientDomain, 0, 0));
            },
            QuotaScope::RecipientDomain => {
                lemma_plan_from_ordered(definitions, message, QuotaScope::Recipient, 0, 0);
                assert(here == plan_from(definitions, message, QuotaScope::Recipient, 0, 0));
            },
            QuotaScope::Recipient => {
                assert(here.len() == 0);
            },
        }
    } else if definitions[d as int].scope != tier || s >= scope_count(message, tier) {
        lemma_plan_from_ordered(definitions, message, tier, d + 1, 0);
        assert(here == plan_from(definitions, message, tier, d + 1, 0));
    } else {
        lemma_plan_from_ordered(definitions, message, tier, d, s + 1);
        lemma_scope_count_fits(message, tier);
        let first = Check { definition: d, scope: instance(message, tier, s) };
        let rest = plan_from(definitions, message, tier, d, s + 1);
        assert(here == seq![first] + rest);
        assert(index_of(first.scope) == s);
        assert forall|i: int| 0 <= i < here.len() implies at_or_after(
            definitions,
            #[trigger] here[i],
            tier,
            d,
            s,
        ) by {
            if i > 0 {
                assert(here[i] == rest[i - 1]);
            }
        }
        assert forall|i: int, j: int| 0 <= i < j < here.len() implies earlier(
            definitions,
            #[trigger] here[i],
            #[trigger] here[j],
        ) by {
            assert(here[j] == rest[j - 1]);
            if i > 0 {
                assert(here[i] == rest[i - 1]);
            }
        }
    }
}

/// The plan is in order: the sender's rules come first, then the domains',
/// then the recipients'; within a tier the rules follow the configuration,
/// and each rule is checked against the scope instances in message order.
pub proof fn lemma_plan_is_ordered(definitions: Seq<QuotaDefinition>, message: &Message)
    ensures
        forall|i: int, j: int|
            0 <= i < j < plan(definitions, message).len() ==> earlier(
                definitions,
                #[trigger] plan(definitions, message)[i],
                #[trigger] plan(definitions, message)[j],
            ),
{
    lemma_plan_from_ordered(definitions, message, QuotaScope::Sender, 0, 0);
}

} // verus!
