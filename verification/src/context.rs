//! Context selection for assistants: a token budget, usage descriptions,
//! architectural layers and the related symbols chosen for each intent.
use vstd::prelude::*;
use crate::graph::{CodeGraph, Direction, EdgeType, GraphEdge, incoming_of, outgoing_of, edge_triple};
use crate::query::{str_or_empty, string_or_empty};
use crate::text::{concat, file_stem_text, plain_path, join_strings, joined, lowercase, owned, seq_contains, seq_ends_with, seq_starts_with, str_contains, str_ends_with, str_eq, str_starts_with, to_lower, views};

verus! {

/// A budget of tokens: how many may be spent, and how many are.
pub struct TokenBudget {
    pub total: usize,
    pub used: usize,
}

impl TokenBudget {
    /// Well-formed: no more is spent than allowed.
    pub open spec fn wf(&self) -> bool {
        self.used <= self.total
    }

    /// A budget of `total` tokens with nothing spent.
    pub fn new(total: usize) -> (r: Self)
        ensures
            r.wf(),
            r.total == total,
            r.used == 0,
    {
        TokenBudget { total, used: 0 }
    }

    /// Spend `tokens` if they fit in what is left; reports whether they did.
    pub fn consume(&mut self, tokens: usize) -> (r: bool)
        requires
            old(self).wf(),
        ensures
            final(self).wf(),
            final(self).total == old(self).total,
            r == (old(self).used + tokens <= old(self).total),
            r ==> final(self).used == old(self).used + tokens,
            !r ==> final(self).used == old(self).used,
    {
        if tokens <= self.total - self.used {
            self.used = self.used + tokens;
            true
        } else {
            false
        }
    }

    /// Whether anything is left to spend.
    pub fn has_budget(&self) -> (r: bool)
        ensures
            r == (self.used < self.total),
    {
        self.used < self.total
    }

    /// The tokens left to spend.
    pub fn remaining(&self) -> (r: usize)
        ensures
            r == (if self.used <= self.total { self.total - self.used } else { 0 }),
    {
        self.total.saturating_sub(self.used)
    }
}

/// The budget after trying to spend each of `asks` in turn.
pub open spec fn after_consumes(total: usize, used: usize, asks: Seq<usize>) -> usize
    decreases asks.len(),
{
    if asks.len() == 0 {
        used
    } else {
        let before = after_consumes(total, used, asks.drop_last());
        if before + asks.last() <= total {
            (before + asks.last()) as usize
        } else {
            before
        }
    }
}

/// However many requests are made, a budget never spends more than it has,
/// and never less than it had spent.
pub proof fn lemma_budget_never_exceeded(total: usize, used: usize, asks: Seq<usize>)
    requires
        used <= total,
    ensures
        used <= after_consumes(total, used, asks) <= total,
    decreases asks.len(),
{
    if asks.len() > 0 {
        lemma_budget_never_exceeded(total, used, asks.drop_last());
    }
}

/// The walk that picks candidates under a budget, from position `i` of
/// `costs` with `used` tokens spent: it stops once nothing is left; a
/// candidate without a cost (no source) is passed over; one that fits is
/// taken and its cost spent; one that does not fit ends the walk where
/// `stop` says so, and is passed over otherwise. The positions taken, and
/// the tokens spent at the end.
pub open spec fn budget_walk(total: usize, used: usize, costs: Seq<Option<usize>>, stop: bool, i: int) -> (
    Seq<usize>,
    usize,
)
    decreases costs.len() - i,
{
    if i < 0 || i >= costs.len() || used >= total {
        (seq![], used)
    } else {
        match costs[i] {
            None => budget_walk(total, used, costs, stop, i + 1),
            Some(c) => if used + c <= total {
                let rest = budget_walk(total, (used + c) as usize, costs, stop, i + 1);
                (seq![i as usize] + rest.0, rest.1)
            } else if stop {
                (seq![], used)
            } else {
                budget_walk(total, used, costs, stop, i + 1)
            },
        }
    }
}

/// The costs of the taken positions.
pub open spec fn taken_costs(costs: Seq<Option<usize>>, taken: Seq<usize>) -> Seq<usize> {
    taken.map_values(|k: usize| match costs[k as int] {
        Some(c) => c,
        None => 0,
    })
}

/// Which of the candidates with source costs `costs` (none where the source
/// is unavailable) fit a budget of `total` tokens of which `used` are spent,
/// walked in order; and the tokens spent after them, which is what spending
/// their costs in turn leaves.
pub fn select_within_budget(total: usize, used: usize, costs: &Vec<Option<usize>>, stop_on_overrun: bool) -> (r: (
    Vec<usize>,
    usize,
))
    ensures
        (r.0@, r.1) == budget_walk(total, used, costs@, stop_on_overrun, 0),
        r.1 == after_consumes(total, used, taken_costs(costs@, r.0@)),
        used <= total ==> used <= r.1 <= total,
{
    let mut taken: Vec<usize> = Vec::new();
    let mut spent: usize = used;
    let mut i: usize = 0;
    while i < costs.len() && spent < total
        invariant
            i <= costs@.len(),
            budget_walk(total, used, costs@, stop_on_overrun, 0) == (
                taken@ + budget_walk(total, spent, costs@, stop_on_overrun, i as int).0,
                budget_walk(total, spent, costs@, stop_on_overrun, i as int).1,
            ),
            spent == after_consumes(total, used, taken_costs(costs@, taken@)),
            forall|k: int| 0 <= k < taken@.len() ==> (#[trigger] taken@[k]) < i && costs@[taken@[k] as int] is Some,
            used <= total ==> used <= spent <= total,
        decreases costs@.len() - i,
    {
        match costs[i] {
            None => {},
            Some(c) => {
                if c <= total - spent {
                    let ghost before = taken@;
                    proof {
                        let rest = budget_walk(total, (spent + c) as usize, costs@, stop_on_overrun, i + 1);
                        assert(taken@ + (seq![i as usize] + rest.0) =~= taken@.push(i) + rest.0);
                    }
                    taken.push(i);
                    proof {
                        let tc = taken_costs(costs@, taken@);
                        assert(tc.drop_last() =~= taken_costs(costs@, before));
                        assert(tc.last() == c);
                    }
                    spent = spent + c;
                } else if stop_on_overrun {
                    proof {
                        assert(taken@ + Seq::<usize>::empty() =~= taken@);
                    }
                    return (taken, spent);
                }
            },
        }
        i = i + 1;
    }
    proof {
        assert(taken@ + Seq::<usize>::empty() =~= taken@);
    }
    (taken, spent)
}

/// How an AI context spends its budget: the related candidates and the
/// usage examples taken (by position), and the tokens spent in all.
pub struct ContextBudgetPlan {
    pub related: Vec<usize>,
    pub usages: Vec<usize>,
    pub total_tokens: usize,
}

/// The spending of an AI context's budget of `max_tokens`: the primary
/// symbol's source first (where it fits), then the related candidates with
/// source costs `related_costs`, each passed over where it does not fit, then
/// the usage examples with costs `usage_costs`, up to the first that does
/// not fit. Never more than the budget is spent.
pub fn plan_context_budget(
    max_tokens: usize,
    primary_cost: usize,
    related_costs: &Vec<Option<usize>>,
    usage_costs: &Vec<Option<usize>>,
) -> (r: ContextBudgetPlan)
    ensures
        ({
            let first: usize = if primary_cost <= max_tokens { primary_cost } else { 0 };
            let rel = budget_walk(max_tokens, first, related_costs@, false, 0);
            let ex = budget_walk(max_tokens, rel.1, usage_costs@, true, 0);
            &&& r.related@ == rel.0
            &&& r.usages@ == ex.0
            &&& r.total_tokens == ex.1
        }),
        r.total_tokens <= max_tokens,
{
    let mut budget = TokenBudget::new(max_tokens);
    budget.consume(primary_cost);
    let (related, spent) = select_within_budget(budget.total, budget.used, related_costs, false);
    let (usages, total) = select_within_budget(max_tokens, spent, usage_costs, true);
    ContextBudgetPlan { related, usages, total_tokens: total }
}

/// A rough token count of a text: its length in bytes divided by four.
pub fn estimate_tokens(code: &str) -> (r: usize)
    ensures
        r == code.len() / 4,
{
    code.len() / 4
}

/// The description of how `caller` uses `target` in `code`.
pub open spec fn usage_description(caller: Seq<char>, target: Seq<char>, code: Seq<char>) -> Seq<char> {
    let head = if caller.len() > 0 {
        "`"@ + caller + "` calls `"@ + target + "`"@
    } else {
        "Usage of `"@ + target + "`"@
    };
    let is_async = seq_contains(code, "await"@) || seq_contains(code, "async"@);
    let is_error = seq_contains(code, "try"@) || seq_contains(code, "catch"@) || seq_contains(code, "?"@);
    let is_cond = seq_contains(code, "if"@) || seq_contains(code, "match"@) || seq_contains(code, "switch"@);
    let parts = seq![head] + (if is_async { seq!["(async)"@] } else { seq![] }) + (if is_error {
        seq!["with error handling"@]
    } else {
        seq![]
    }) + (if is_cond { seq!["conditionally"@] } else { seq![] });
    joined(parts, " "@)
}

/// Describe how `caller_name` uses `target_name` in `code`: who calls what,
/// then whether the use is asynchronous, handles errors, or is conditional.
pub fn generate_usage_description(caller_name: &str, target_name: &str, code: &str) -> (r: String)
    ensures
        r@ == usage_description(caller_name@, target_name@, code@),
{
    let is_async = str_contains(code, "await") || str_contains(code, "async");
    let is_error = str_contains(code, "try") || str_contains(code, "catch") || str_contains(code, "?");
    let is_cond = str_contains(code, "if") || str_contains(code, "match") || str_contains(code, "switch");
    let mut parts: Vec<String> = Vec::new();
    if !caller_name.is_empty() {
        let a = concat("`", caller_name);
        let b = concat(a.as_str(), "` calls `");
        let c = concat(b.as_str(), target_name);
        parts.push(concat(c.as_str(), "`"));
    } else {
        let a = concat("Usage of `", target_name);
        parts.push(concat(a.as_str(), "`"));
    }
    let ghost p0 = views(parts@);
    if is_async {
        parts.push(owned("(async)"));
    }
    let ghost p1 = views(parts@);
    if is_error {
        parts.push(owned("with error handling"));
    }
    let ghost p2 = views(parts@);
    if is_cond {
        parts.push(owned("conditionally"));
    }
    proof {
        let head = if caller_name@.len() > 0 {
            "`"@ + caller_name@ + "` calls `"@ + target_name@ + "`"@
        } else {
            "Usage of `"@ + target_name@ + "`"@
        };
        assert(p0 =~= seq![head]);
        assert(views(parts@) =~= seq![head] + (if is_async { seq!["(async)"@] } else { seq![] }) + (if is_error {
            seq!["with error handling"@]
        } else {
            seq![]
        }) + (if is_cond { seq!["conditionally"@] } else { seq![] }));
    }
    join_strings(&parts, " ")
}

/// The architectural layer a lower-case path names by one of the usual
/// directory or file words, checked group by group in this order.
pub open spec fn layer_by_path(p: Seq<char>) -> Option<Seq<char>> {
    if seq_contains(p, "controllers"@) || seq_contains(p, "controller"@) || seq_contains(p, "routes"@)
        || seq_contains(p, "router"@) || seq_contains(p, "endpoints"@) || seq_contains(p, "api/"@) {
        Some("controller"@)
    } else if seq_contains(p, "views"@) || seq_contains(p, "view"@) || seq_contains(p, "templates"@)
        || seq_contains(p, "pages"@) || seq_contains(p, "components"@) || seq_contains(p, "ui/"@) {
        Some("presentation"@)
    } else if seq_contains(p, "handlers"@) || seq_contains(p, "handler"@) {
        Some("handler"@)
    } else if seq_contains(p, "services"@) || seq_contains(p, "service"@) || seq_contains(p, "usecases"@)
        || seq_contains(p, "use_cases"@) || seq_contains(p, "application/"@) {
        Some("service"@)
    } else if seq_contains(p, "commands"@) || seq_contains(p, "command"@) {
        Some("command"@)
    } else if seq_contains(p, "queries"@) || seq_contains(p, "query"@) {
        Some("query"@)
    } else if seq_contains(p, "models"@) || seq_contains(p, "model"@) || seq_contains(p, "entities"@)
        || seq_contains(p, "entity"@) || seq_contains(p, "domain/"@) {
        Some("domain"@)
    } else if seq_contains(p, "aggregates"@) || seq_contains(p, "aggregate"@) {
        Some("aggregate"@)
    } else if seq_contains(p, "value_objects"@) || seq_contains(p, "valueobjects"@) {
        Some("value_object"@)
    } else if seq_contains(p, "repositories"@) || seq_contains(p, "repository"@) || seq_contains(p, "repos"@) {
        Some("repository"@)
    } else if seq_contains(p, "database"@) || seq_contains(p, "db/"@) || seq_contains(p, "persistence"@) {
        Some("persistence"@)
    } else if seq_contains(p, "adapters"@) || seq_contains(p, "adapter"@) || seq_contains(
        p,
        "infrastructure/"@,
    ) {
        Some("infrastructure"@)
    } else if seq_contains(p, "clients"@) || seq_contains(p, "client"@) {
        Some("client"@)
    } else if seq_contains(p, "providers"@) || seq_contains(p, "provider"@) {
        Some("provider"@)
    } else if seq_contains(p, "middleware"@) || seq_contains(p, "middlewares"@) {
        Some("middleware"@)
    } else if seq_contains(p, "utils"@) || seq_contains(p, "util"@) || seq_contains(p, "helpers"@)
        || seq_contains(p, "helper"@) || seq_contains(p, "lib/"@) {
        Some("utility"@)
    } else if seq_contains(p, "config"@) || seq_contains(p, "configuration"@) || seq_contains(p, "settings"@) {
        Some("configuration"@)
    } else if seq_contains(p, "types"@) || seq_contains(p, "interfaces"@) || seq_contains(p, "contracts"@) {
        Some("contract"@)
    } else if seq_contains(p, "tests"@) || seq_contains(p, "test"@) || seq_contains(p, "__tests__"@)
        || seq_contains(p, "spec"@) || seq_contains(p, "specs"@) {
        Some("test"@)
    } else if seq_contains(p, "fixtures"@) || seq_contains(p, "mocks"@) || seq_contains(p, "stubs"@) {
        Some("test_support"@)
    } else {
        None
    }
}

/// The architectural layer a lower-case file stem names by its ending or
/// beginning.
pub open spec fn layer_by_name(f: Seq<char>) -> Option<Seq<char>> {
    if seq_ends_with(f, "controller"@) || seq_ends_with(f, "_controller"@) {
        Some("controller"@)
    } else if seq_ends_with(f, "service"@) || seq_ends_with(f, "_service"@) {
        Some("service"@)
    } else if seq_ends_with(f, "repository"@) || seq_ends_with(f, "_repository"@) || seq_ends_with(f, "repo"@) {
        Some("repository"@)
    } else if seq_ends_with(f, "model"@) || seq_ends_with(f, "_model"@) || seq_ends_with(f, "entity"@) {
        Some("domain"@)
    } else if seq_ends_with(f, "handler"@) || seq_ends_with(f, "_handler"@) {
        Some("handler"@)
    } else if seq_ends_with(f, "middleware"@) {
        Some("middleware"@)
    } else if seq_starts_with(f, "test_"@) || seq_ends_with(f, "_test"@) || seq_ends_with(f, ".test"@)
        || seq_ends_with(f, ".spec"@) {
        Some("test"@)
    } else {
        None
    }
}

/// Which layer a lower-case path names: the first group of the table, in
/// order, that has one of its words in the path gives the layer, and a
/// layer is only ever given for a path holding one of its group's words;
/// a path with no word of any group names none.
pub proof fn lemma_layer_by_path_words(p: Seq<char>)
    ensures
        (seq_contains(p, "controllers"@) || seq_contains(p, "controller"@) || seq_contains(p, "routes"@) || seq_contains(p, "router"@) || seq_contains(p, "endpoints"@) || seq_contains(p, "api/"@)) ==> layer_by_path(p) == Some("controller"@),
        !(seq_contains(p, "controllers"@) || seq_contains(p, "controller"@) || seq_contains(p, "routes"@) || seq_contains(p, "router"@) || seq_contains(p, "endpoints"@) || seq_contains(p, "api/"@)) && (seq_contains(p, "views"@) || seq_contains(p, "view"@) || seq_contains(p, "templates"@) || seq_contains(p, "pages"@) || seq_contains(p, "components"@) || seq_contains(p, "ui/"@)) ==> layer_by_path(p) == Some("presentation"@),
        !(seq_contains(p, "controllers"@) || seq_contains(p, "controller"@) || seq_contains(p, "routes"@) || seq_contains(p, "router"@) || seq_contains(p, "endpoints"@) || seq_contains(p, "api/"@)) && !(seq_contains(p, "views"@) || seq_contains(p, "view"@) || seq_contains(p, "templates"@) || seq_contains(p, "pages"@) || seq_contains(p, "components"@) || seq_contains(p, "ui/"@)) && (seq_contains(p, "handlers"@) || seq_contains(p, "handler"@)) ==> layer_by_path(p) == Some("handler"@),
        !(seq_contains(p, "controllers"@) || seq_contains(p, "controller"@) || seq_contains(p, "routes"@) || seq_contains(p, "router"@) || seq_contains(p, "endpoints"@) || seq_contains(p, "api/"@)) && !(seq_contains(p, "views"@) || seq_contains(p, "view"@) || seq_contains(p, "templates"@) || seq_contains(p, "pages"@) || seq_contains(p, "components"@) || seq_contains(p, "ui/"@)) && !(seq_contains(p, "handlers"@) || seq_contains(p, "handler"@)) && (seq_contains(p, "services"@) || seq_contains(p, "service"@) || seq_contains(p, "usecases"@) || seq_contains(p, "use_cases"@) || seq_contains(p, "application/"@)) ==> layer_by_path(p) == Some("service"@),
        !(seq_contains(p, "controllers"@) || seq_contains(p, "controller"@) || seq_contains(p, "routes"@) || seq_contains(p, "router"@) || seq_contains(p, "endpoints"@) || seq_contains(p, "api/"@)) && !(seq_contains(p, "views"@) || seq_contains(p, "view"@) || seq_contains(p, "templates"@) || seq_contains(p, "pages"@) || seq_contains(p, "components"@) || seq_contains(p, "ui/"@)) && !(seq_contains(p, "handlers"@) || seq_contains(p, "handler"@)) && !(seq_contains(p, "services"@) || seq_contains(p, "service"@) || seq_contains(p, "usecases"@) || seq_contains(p, "use_cases"@) || seq_contains(p, "application/"@)) && (seq_contains(p, "commands"@) || seq_contains(p, "command"@)) ==> layer_by_path(p) == Some("command"@),
        !(seq_contains(p, "controllers"@) || seq_contains(p, "controller"@) || seq_contains(p, "routes"@) || seq_contains(p, "router"@) || seq_contains(p, "endpoints"@) || seq_contains(p, "api/"@)) && !(seq_contains(p, "views"@) || seq_contains(p, "view"@) || seq_contains(p, "templates"@) || seq_contains(p, "pages"@) || seq_contains(p, "components"@) || seq_contains(p, "ui/"@)) && !(seq_contains(p, "handlers"@) || seq_contains(p, "handler"@)) && !(seq_contains(p, "services"@) || seq_contains(p, "service"@) || seq_contains(p, "usecases"@) || seq_contains(p, "use_cases"@) || seq_contains(p, "application/"@)) && !(seq_contains(p, "commands"@) || seq_contains(p, "command"@)) && (seq_contains(p, "queries"@) || seq_contains(p, "query"@)) ==> layer_by_path(p) == Some("query"@),
        !(seq_contains(p, "controllers"@) || seq_contains(p, "controller"@) || seq_contains(p, "routes"@) || seq_contains(p, "router"@) || seq_contains(p, "endpoints"@) || seq_contains(p, "api/"@)) && !(seq_contains(p, "views"@) || seq_contains(p, "view"@) || seq_contains(p, "templates"@) || seq_contains(p, "pages"@) || seq_contains(p, "components"@) || seq_contains(p, "ui/"@)) && !(seq_contains(p, "handlers"@) || seq_contains(p, "handler"@)) && !(seq_contains(p, "services"@) || seq_contains(p, "service"@) || seq_contains(p, "usecases"@) || seq_contains(p, "use_cases"@) || seq_contains(p, "application/"@)) && !(seq_contains(p, "commands"@) || seq_contains(p, "command"@)) && !(seq_contains(p, "queries"@) || seq_contains(p, "query"@)) && (seq_contains(p, "models"@) || seq_contains(p, "model"@) || seq_contains(p, "entities"@) || seq_contains(p, "entity"@) || seq_contains(p, "domain/"@)) ==> layer_by_path(p) == Some("domain"@),
        !(seq_contains(p, "controllers"@) || seq_contains(p, "controller"@) || seq_contains(p, "routes"@) || seq_contains(p, "router"@) || seq_contains(p, "endpoints"@) || seq_contains(p, "api/"@)) && !(seq_contains(p, "views"@) || seq_contains(p, "view"@) || seq_contains(p, "templates"@) || seq_contains(p, "pages"@) || seq_contains(p, "components"@) || seq_contains(p, "ui/"@)) && !(seq_contains(p, "handlers"@) || seq_contains(p, "handler"@)) && !(seq_contains(p, "services"@) || seq_contains(p, "service"@) || seq_contains(p, "usecases"@) || seq_contains(p, "use_cases"@) || seq_contains(p, "application/"@)) && !(seq_contains(p, "commands"@) || seq_contains(p, "command"@)) && !(seq_contains(p, "queries"@) || seq_contains(p, "query"@)) && !(seq_contains(p, "models"@) || seq_contains(p, "model"@) || seq_contains(p, "entities"@) || seq_contains(p, "entity"@) || seq_contains(p, "domain/"@)) && (seq_contains(p, "aggregates"@) || seq_contains(p, "aggregate"@)) ==> layer_by_path(p) == Some("aggregate"@),
        !(seq_contains(p, "controllers"@) || seq_contains(p, "controller"@) || seq_contains(p, "routes"@) || seq_contains(p, "router"@) || seq_contains(p, "endpoints"@) || seq_contains(p, "api/"@)) && !(seq_contains(p, "views"@) || seq_contains(p, "view"@) || seq_contains(p, "templates"@) || seq_contains(p, "pages"@) || seq_contains(p, "components"@) || seq_contains(p, "ui/"@)) && !(seq_contains(p, "handlers"@) || seq_contains(p, "handler"@)) && !(seq_contains(p, "services"@) || seq_contains(p, "service"@) || seq_contains(p, "usecases"@) || seq_contains(p, "use_cases"@) || seq_contains(p, "application/"@)) && !(seq_contains(p, "commands"@) || seq_contains(p, "command"@)) && !(seq_contains(p, "queries"@) || seq_contains(p, "query"@)) && !(seq_contains(p, "models"@) || seq_contains(p, "model"@) || seq_contains(p, "entities"@) || seq_contains(p, "entity"@) || seq_contains(p, "domain/"@)) && !(seq_contains(p, "aggregates"@) || seq_contains(p, "aggregate"@)) && (seq_contains(p, "value_objects"@) || seq_contains(p, "valueobjects"@)) ==> layer_by_path(p) == Some("value_object"@),
        !(seq_contains(p, "controllers"@) || seq_contains(p, "controller"@) || seq_contains(p, "routes"@) || seq_contains(p, "router"@) || seq_contains(p, "endpoints"@) || seq_contains(p, "api/"@)) && !(seq_contains(p, "views"@) || seq_contains(p, "view"@) || seq_contains(p, "templates"@) || seq_contains(p, "pages"@) || seq_contains(p, "components"@) || seq_contains(p, "ui/"@)) && !(seq_contains(p, "handlers"@) || seq_contains(p, "handler"@)) && !(seq_contains(p, "services"@) || seq_contains(p, "service"@) || seq_contains(p, "usecases"@) || seq_contains(p, "use_cases"@) || seq_contains(p, "application/"@)) && !(seq_contains(p, "commands"@) || seq_contains(p, "command"@)) && !(seq_contains(p, "queries"@) || seq_contains(p, "query"@)) && !(seq_contains(p, "models"@) || seq_contains(p, "model"@) || seq_contains(p, "entities"@) || seq_contains(p, "entity"@) || seq_contains(p, "domain/"@)) && !(seq_contains(p, "aggregates"@) || seq_contains(p, "aggregate"@)) && !(seq_contains(p, "value_objects"@) || seq_contains(p, "valueobjects"@)) && (seq_contains(p, "repositories"@) || seq_contains(p, "repository"@) || seq_contains(p, "repos"@)) ==> layer_by_path(p) == Some("repository"@),
        !(seq_contains(p, "controllers"@) || seq_contains(p, "controller"@) || seq_contains(p, "routes"@) || seq_contains(p, "router"@) || seq_contains(p, "endpoints"@) || seq_contains(p, "api/"@)) && !(seq_contains(p, "views"@) || seq_contains(p, "view"@) || seq_contains(p, "templates"@) || seq_contains(p, "pages"@) || seq_contains(p, "components"@) || seq_contains(p, "ui/"@)) && !(seq_contains(p, "handlers"@) || seq_contains(p, "handler"@)) && !(seq_contains(p, "services"@) || seq_contains(p, "service"@) || seq_contains(p, "usecases"@) || seq_contains(p, "use_cases"@) || seq_contains(p, "application/"@)) && !(seq_contains(p, "commands"@) || seq_contains(p, "command"@)) && !(seq_contains(p, "queries"@) || seq_contains(p, "query"@)) && !(seq_contains(p, "models"@) || seq_contains(p, "model"@) || seq_contains(p, "entities"@) || seq_contains(p, "entity"@) || seq_contains(p, "domain/"@)) && !(seq_contains(p, "aggregates"@) || seq_contains(p, "aggregate"@)) && !(seq_contains(p, "value_objects"@) || seq_contains(p, "valueobjects"@)) && !(seq_contains(p, "repositories"@) || seq_contains(p, "repository"@) || seq_contains(p, "repos"@)) && (seq_contains(p, "database"@) || seq_contains(p, "db/"@) || seq_contains(p, "persistence"@)) ==> layer_by_path(p) == Some("persistence"@),
        !(seq_contains(p, "controllers"@) || seq_contains(p, "controller"@) || seq_contains(p, "routes"@) || seq_contains(p, "router"@) || seq_contains(p, "endpoints"@) || seq_contains(p, "api/"@)) && !(seq_contains(p, "views"@) || seq_contains(p, "view"@) || seq_contains(p, "templates"@) || seq_contains(p, "pages"@) || seq_contains(p, "components"@) || seq_contains(p, "ui/"@)) && !(seq_contains(p, "handlers"@) || seq_contains(p, "handler"@)) && !(seq_contains(p, "services"@) || seq_contains(p, "service"@) || seq_contains(p, "usecases"@) || seq_contains(p, "use_cases"@) || seq_contains(p, "application/"@)) && !(seq_contains(p, "commands"@) || seq_contains(p, "command"@)) && !(seq_contains(p, "queries"@) || seq_contains(p, "query"@)) && !(seq_contains(p, "models"@) || seq_contains(p, "model"@) || seq_contains(p, "entities"@) || seq_contains(p, "entity"@) || seq_contains(p, "domain/"@)) && !(seq_contains(p, "aggregates"@) || seq_contains(p, "aggregate"@)) && !(seq_contains(p, "value_objects"@) || seq_contains(p, "valueobjects"@)) && !(seq_contains(p, "repositories"@) || seq_contains(p, "repository"@) || seq_contains(p, "repos"@)) && !(seq_contains(p, "database"@) || seq_contains(p, "db/"@) || seq_contains(p, "persistence"@)) && (seq_contains(p, "adapters"@) || seq_contains(p, "adapter"@) || seq_contains(p, "infrastructure/"@)) ==> layer_by_path(p) == Some("infrastructure"@),
        !(seq_contains(p, "controllers"@) || seq_contains(p, "controller"@) || seq_contains(p, "routes"@) || seq_contains(p, "router"@) || seq_contains(p, "endpoints"@) || seq_contains(p, "api/"@)) && !(seq_contains(p, "views"@) || seq_contains(p, "view"@) || seq_contains(p, "templates"@) || seq_contains(p, "pages"@) || seq_contains(p, "components"@) || seq_contains(p, "ui/"@)) && !(seq_contains(p, "handlers"@) || seq_contains(p, "handler"@)) && !(seq_contains(p, "services"@) || seq_contains(p, "service"@) || seq_contains(p, "usecases"@) || seq_contains(p, "use_cases"@) || seq_contains(p, "application/"@)) && !(seq_contains(p, "commands"@) || seq_contains(p, "command"@)) && !(seq_contains(p, "queries"@) || seq_contains(p, "query"@)) && !(seq_contains(p, "models"@) || seq_contains(p, "model"@) || seq_contains(p, "entities"@) || seq_contains(p, "entity"@) || seq_contains(p, "domain/"@)) && !(seq_contains(p, "aggregates"@) || seq_contains(p, "aggregate"@)) && !(seq_contains(p, "value_objects"@) || seq_contains(p, "valueobjects"@)) && !(seq_contains(p, "repositories"@) || seq_contains(p, "repository"@) || seq_contains(p, "repos"@)) && !(seq_contains(p, "database"@) || seq_contains(p, "db/"@) || seq_contains(p, "persistence"@)) && !(seq_contains(p, "adapters"@) || seq_contains(p, "adapter"@) || seq_contains(p, "infrastructure/"@)) && (seq_contains(p, "clients"@) || seq_contains(p, "client"@)) ==> layer_by_path(p) == Some("client"@),
        !(seq_contains(p, "controllers"@) || seq_contains(p, "controller"@) || seq_contains(p, "routes"@) || seq_contains(p, "router"@) || seq_contains(p, "endpoints"@) || seq_contains(p, "api/"@)) && !(seq_contains(p, "views"@) || seq_contains(p, "view"@) || seq_contains(p, "templates"@) || seq_contains(p, "pages"@) || seq_contains(p, "components"@) || seq_contains(p, "ui/"@)) && !(seq_contains(p, "handlers"@) || seq_contains(p, "handler"@)) && !(seq_contains(p, "services"@) || seq_contains(p, "service"@) || seq_contains(p, "usecases"@) || seq_contains(p, "use_cases"@) || seq_contains(p, "application/"@)) && !(seq_contains(p, "commands"@) || seq_contains(p, "command"@)) && !(seq_contains(p, "queries"@) || seq_contains(p, "query"@)) && !(seq_contains(p, "models"@) || seq_contains(p, "model"@) || seq_contains(p, "entities"@) || seq_contains(p, "entity"@) || seq_contains(p, "domain/"@)) && !(seq_contains(p, "aggregates"@) || seq_contains(p, "aggregate"@)) && !(seq_contains(p, "value_objects"@) || seq_contains(p, "valueobjects"@)) && !(seq_contains(p, "repositories"@) || seq_contains(p, "repository"@) || seq_contains(p, "repos"@)) && !(seq_contains(p, "database"@) || seq_contains(p, "db/"@) || seq_contains(p, "persistence"@)) && !(seq_contains(p, "adapters"@) || seq_contains(p, "adapter"@) || seq_contains(p, "infrastructure/"@)) && !(seq_contains(p, "clients"@) || seq_contains(p, "client"@)) && (seq_contains(p, "providers"@) || seq_contains(p, "provider"@)) ==> layer_by_path(p) == Some("provider"@),
        !(seq_contains(p, "controllers"@) || seq_contains(p, "controller"@) || seq_contains(p, "routes"@) || seq_contains(p, "router"@) || seq_contains(p, "endpoints"@) || seq_contains(p, "api/"@)) && !(seq_contains(p, "views"@) || seq_contains(p, "view"@) || seq_contains(p, "templates"@) || seq_contains(p, "pages"@) || seq_contains(p, "components"@) || seq_contains(p, "ui/"@)) && !(seq_contains(p, "handlers"@) || seq_contains(p, "handler"@)) && !(seq_contains(p, "services"@) || seq_contains(p, "service"@) || seq_contains(p, "usecases"@) || seq_contains(p, "use_cases"@) || seq_contains(p, "application/"@)) && !(seq_contains(p, "commands"@) || seq_contains(p, "command"@)) && !(seq_contains(p, "queries"@) || seq_contains(p, "query"@)) && !(seq_contains(p, "models"@) || seq_contains(p, "model"@) || seq_contains(p, "entities"@) || seq_contains(p, "entity"@) || seq_contains(p, "domain/"@)) && !(seq_contains(p, "aggregates"@) || seq_contains(p, "aggregate"@)) && !(seq_contains(p, "value_objects"@) || seq_contains(p, "valueobjects"@)) && !(seq_contains(p, "repositories"@) || seq_contains(p, "repository"@) || seq_contains(p, "repos"@)) && !(seq_contains(p, "database"@) || seq_contains(p, "db/"@) || seq_contains(p, "persistence"@)) && !(seq_contains(p, "adapters"@) || seq_contains(p, "adapter"@) || seq_contains(p, "infrastructure/"@)) && !(seq_contains(p, "clients"@) || seq_contains(p, "client"@)) && !(seq_contains(p, "providers"@) || seq_contains(p, "provider"@)) && (seq_contains(p, "middleware"@) || seq_contains(p, "middlewares"@)) ==> layer_by_path(p) == Some("middleware"@),
        !(seq_contains(p, "controllers"@) || seq_contains(p, "controller"@) || seq_contains(p, "routes"@) || seq_contains(p, "router"@) || seq_contains(p, "endpoints"@) || seq_contains(p, "api/"@)) && !(seq_contains(p, "views"@) || seq_contains(p, "view"@) || seq_contains(p, "templates"@) || seq_contains(p, "pages"@) || seq_contains(p, "components"@) || seq_contains(p, "ui/"@)) && !(seq_contains(p, "handlers"@) || seq_contains(p, "handler"@)) && !(seq_contains(p, "services"@) || seq_contains(p, "service"@) || seq_contains(p, "usecases"@) || seq_contains(p, "use_cases"@) || seq_contains(p, "application/"@)) && !(seq_contains(p, "commands"@) || seq_contains(p, "command"@)) && !(seq_contains(p, "queries"@) || seq_contains(p, "query"@)) && !(seq_contains(p, "models"@) || seq_contains(p, "model"@) || seq_contains(p, "entities"@) || seq_contains(p, "entity"@) || seq_contains(p, "domain/"@)) && !(seq_contains(p, "aggregates"@) || seq_contains(p, "aggregate"@)) && !(seq_contains(p, "value_objects"@) || seq_contains(p, "valueobjects"@)) && !(seq_contains(p, "repositories"@) || seq_contains(p, "repository"@) || seq_contains(p, "repos"@)) && !(seq_contains(p, "database"@) || seq_contains(p, "db/"@) || seq_contains(p, "persistence"@)) && !(seq_contains(p, "adapters"@) || seq_contains(p, "adapter"@) || seq_contains(p, "infrastructure/"@)) && !(seq_contains(p, "clients"@) || seq_contains(p, "client"@)) && !(seq_contains(p, "providers"@) || seq_contains(p, "provider"@)) && !(seq_contains(p, "middleware"@) || seq_contains(p, "middlewares"@)) && (seq_contains(p, "utils"@) || seq_contains(p, "util"@) || seq_contains(p, "helpers"@) || seq_contains(p, "helper"@) || seq_contains(p, "lib/"@)) ==> layer_by_path(p) == Some("utility"@),
        !(seq_contains(p, "controllers"@) || seq_contains(p, "controller"@) || seq_contains(p, "routes"@) || seq_contains(p, "router"@) || seq_contains(p, "endpoints"@) || seq_contains(p, "api/"@)) && !(seq_contains(p, "views"@) || seq_contains(p, "view"@) || seq_contains(p, "templates"@) || seq_contains(p, "pages"@) || seq_contains(p, "components"@) || seq_contains(p, "ui/"@)) && !(seq_contains(p, "handlers"@) || seq_contains(p, "handler"@)) && !(seq_contains(p, "services"@) || seq_contains(p, "service"@) || seq_contains(p, "usecases"@) || seq_contains(p, "use_cases"@) || seq_contains(p, "application/"@)) && !(seq_contains(p, "commands"@) || seq_contains(p, "command"@)) && !(seq_contains(p, "queries"@) || seq_contains(p, "query"@)) && !(seq_contains(p, "models"@) || seq_contains(p, "model"@) || seq_contains(p, "entities"@) || seq_contains(p, "entity"@) || seq_contains(p, "domain/"@)) && !(seq_contains(p, "aggregates"@) || seq_contains(p, "aggregate"@)) && !(seq_contains(p, "value_objects"@) || seq_contains(p, "valueobjects"@)) && !(seq_contains(p, "repositories"@) || seq_contains(p, "repository"@) || seq_contains(p, "repos"@)) && !(seq_contains(p, "database"@) || seq_contains(p, "db/"@) || seq_contains(p, "persistence"@)) && !(seq_contains(p, "adapters"@) || seq_contains(p, "adapter"@) || seq_contains(p, "infrastructure/"@)) && !(seq_contains(p, "clients"@) || seq_contains(p, "client"@)) && !(seq_contains(p, "providers"@) || seq_contains(p, "provider"@)) && !(seq_contains(p, "middleware"@) || seq_contains(p, "middlewares"@)) && !(seq_contains(p, "utils"@) || seq_contains(p, "util"@) || seq_contains(p, "helpers"@) || seq_contains(p, "helper"@) || seq_contains(p, "lib/"@)) && (seq_contains(p, "config"@) || seq_contains(p, "configuration"@) || seq_contains(p, "settings"@)) ==> layer_by_path(p) == Some("configuration"@),
        !(seq_contains(p, "controllers"@) || seq_contains(p, "controller"@) || seq_contains(p, "routes"@) || seq_contains(p, "router"@) || seq_contains(p, "endpoints"@) || seq_contains(p, "api/"@)) && !(seq_contains(p, "views"@) || seq_contains(p, "view"@) || seq_contains(p, "templates"@) || seq_contains(p, "pages"@) || seq_contains(p, "components"@) || seq_contains(p, "ui/"@)) && !(seq_contains(p, "handlers"@) || seq_contains(p, "handler"@)) && !(seq_contains(p, "services"@) || seq_contains(p, "service"@) || seq_contains(p, "usecases"@) || seq_contains(p, "use_cases"@) || seq_contains(p, "application/"@)) && !(seq_contains(p, "commands"@) || seq_contains(p, "command"@)) && !(seq_contains(p, "queries"@) || seq_contains(p, "query"@)) && !(seq_contains(p, "models"@) || seq_contains(p, "model"@) || seq_contains(p, "entities"@) || seq_contains(p, "entity"@) || seq_contains(p, "domain/"@)) && !(seq_contains(p, "aggregates"@) || seq_contains(p, "aggregate"@)) && !(seq_contains(p, "value_objects"@) || seq_contains(p, "valueobjects"@)) && !(seq_contains(p, "repositories"@) || seq_contains(p, "repository"@) || seq_contains(p, "repos"@)) && !(seq_contains(p, "database"@) || seq_contains(p, "db/"@) || seq_contains(p, "persistence"@)) && !(seq_contains(p, "adapters"@) || seq_contains(p, "adapter"@) || seq_contains(p, "infrastructure/"@)) && !(seq_contains(p, "clients"@) || seq_contains(p, "client"@)) && !(seq_contains(p, "providers"@) || seq_contains(p, "provider"@)) && !(seq_contains(p, "middleware"@) || seq_contains(p, "middlewares"@)) && !(seq_contains(p, "utils"@) || seq_contains(p, "util"@) || seq_contains(p, "helpers"@) || seq_contains(p, "helper"@) || seq_contains(p, "lib/"@)) && !(seq_contains(p, "config"@) || seq_contains(p, "configuration"@) || seq_contains(p, "settings"@)) && (seq_contains(p, "types"@) || seq_contains(p, "interfaces"@) || seq_contains(p, "contracts"@)) ==> layer_by_path(p) == Some("contract"@),
        !(seq_contains(p, "controllers"@) || seq_contains(p, "controller"@) || seq_contains(p, "routes"@) || seq_contains(p, "router"@) || seq_contains(p, "endpoints"@) || seq_contains(p, "api/"@)) && !(seq_contains(p, "views"@) || seq_contains(p, "view"@) || seq_contains(p, "templates"@) || seq_contains(p, "pages"@) || seq_contains(p, "components"@) || seq_contains(p, "ui/"@)) && !(seq_contains(p, "handlers"@) || seq_contains(p, "handler"@)) && !(seq_contains(p, "services"@) || seq_contains(p, "service"@) || seq_contains(p, "usecases"@) || seq_contains(p, "use_cases"@) || seq_contains(p, "application/"@)) && !(seq_contains(p, "commands"@) || seq_contains(p, "command"@)) && !(seq_contains(p, "queries"@) || seq_contains(p, "query"@)) && !(seq_contains(p, "models"@) || seq_contains(p, "model"@) || seq_contains(p, "entities"@) || seq_contains(p, "entity"@) || seq_contains(p, "domain/"@)) && !(seq_contains(p, "aggregates"@) || seq_contains(p, "aggregate"@)) && !(seq_contains(p, "value_objects"@) || seq_contains(p, "valueobjects"@)) && !(seq_contains(p, "repositories"@) || seq_contains(p, "repository"@) || seq_contains(p, "repos"@)) && !(seq_contains(p, "database"@) || seq_contains(p, "db/"@) || seq_contains(p, "persistence"@)) && !(seq_contains(p, "adapters"@) || seq_contains(p, "adapter"@) || seq_contains(p, "infrastructure/"@)) && !(seq_contains(p, "clients"@) || seq_contains(p, "client"@)) && !(seq_contains(p, "providers"@) || seq_contains(p, "provider"@)) && !(seq_contains(p, "middleware"@) || seq_contains(p, "middlewares"@)) && !(seq_contains(p, "utils"@) || seq_contains(p, "util"@) || seq_contains(p, "helpers"@) || seq_contains(p, "helper"@) || seq_contains(p, "lib/"@)) && !(seq_contains(p, "config"@) || seq_contains(p, "configuration"@) || seq_contains(p, "settings"@)) && !(seq_contains(p, "types"@) || seq_contains(p, "interfaces"@) || seq_contains(p, "contracts"@)) && (seq_contains(p, "tests"@) || seq_contains(p, "test"@) || seq_contains(p, "__tests__"@) || seq_contains(p, "spec"@) || seq_contains(p, "specs"@)) ==> layer_by_path(p) == Some("test"@),
        !(seq_contains(p, "controllers"@) || seq_contains(p, "controller"@) || seq_contains(p, "routes"@) || seq_contains(p, "router"@) || seq_contains(p, "endpoints"@) || seq_contains(p, "api/"@)) && !(seq_contains(p, "views"@) || seq_contains(p, "view"@) || seq_contains(p, "templates"@) || seq_contains(p, "pages"@) || seq_contains(p, "components"@) || seq_contains(p, "ui/"@)) && !(seq_contains(p, "handlers"@) || seq_contains(p, "handler"@)) && !(seq_contains(p, "services"@) || seq_contains(p, "service"@) || seq_contains(p, "usecases"@) || seq_contains(p, "use_cases"@) || seq_contains(p, "application/"@)) && !(seq_contains(p, "commands"@) || seq_contains(p, "command"@)) && !(seq_contains(p, "queries"@) || seq_contains(p, "query"@)) && !(seq_contains(p, "models"@) || seq_contains(p, "model"@) || seq_contains(p, "entities"@) || seq_contains(p, "entity"@) || seq_contains(p, "domain/"@)) && !(seq_contains(p, "aggregates"@) || seq_contains(p, "aggregate"@)) && !(seq_contains(p, "value_objects"@) || seq_contains(p, "valueobjects"@)) && !(seq_contains(p, "repositories"@) || seq_contains(p, "repository"@) || seq_contains(p, "repos"@)) && !(seq_contains(p, "database"@) || seq_contains(p, "db/"@) || seq_contains(p, "persistence"@)) && !(seq_contains(p, "adapters"@) || seq_contains(p, "adapter"@) || seq_contains(p, "infrastructure/"@)) && !(seq_contains(p, "clients"@) || seq_contains(p, "client"@)) && !(seq_contains(p, "providers"@) || seq_contains(p, "provider"@)) && !(seq_contains(p, "middleware"@) || seq_contains(p, "middlewares"@)) && !(seq_contains(p, "utils"@) || seq_contains(p, "util"@) || seq_contains(p, "helpers"@) || seq_contains(p, "helper"@) || seq_contains(p, "lib/"@)) && !(seq_contains(p, "config"@) || seq_contains(p, "configuration"@) || seq_contains(p, "settings"@)) && !(seq_contains(p, "types"@) || seq_contains(p, "interfaces"@) || seq_contains(p, "contracts"@)) && !(seq_contains(p, "tests"@) || seq_contains(p, "test"@) || seq_contains(p, "__tests__"@) || seq_contains(p, "spec"@) || seq_contains(p, "specs"@)) && (seq_contains(p, "fixtures"@) || seq_contains(p, "mocks"@) || seq_contains(p, "stubs"@)) ==> layer_by_path(p) == Some("test_support"@),
        layer_by_path(p) == Some("controller"@) ==> (seq_contains(p, "controllers"@) || seq_contains(p, "controller"@) || seq_contains(p, "routes"@) || seq_contains(p, "router"@) || seq_contains(p, "endpoints"@) || seq_contains(p, "api/"@)),
        layer_by_path(p) == Some("presentation"@) ==> (seq_contains(p, "views"@) || seq_contains(p, "view"@) || seq_contains(p, "templates"@) || seq_contains(p, "pages"@) || seq_contains(p, "components"@) || seq_contains(p, "ui/"@)),
        layer_by_path(p) == Some("handler"@) ==> (seq_contains(p, "handlers"@) || seq_contains(p, "handler"@)),
        layer_by_path(p) == Some("service"@) ==> (seq_contains(p, "services"@) || seq_contains(p, "service"@) || seq_contains(p, "usecases"@) || seq_contains(p, "use_cases"@) || seq_contains(p, "application/"@)),
        layer_by_path(p) == Some("command"@) ==> (seq_contains(p, "commands"@) || seq_contains(p, "command"@)),
        layer_by_path(p) == Some("query"@) ==> (seq_contains(p, "queries"@) || seq_contains(p, "query"@)),
        layer_by_path(p) == Some("domain"@) ==> (seq_contains(p, "models"@) || seq_contains(p, "model"@) || seq_contains(p, "entities"@) || seq_contains(p, "entity"@) || seq_contains(p, "domain/"@)),
        layer_by_path(p) == Some("aggregate"@) ==> (seq_contains(p, "aggregates"@) || seq_contains(p, "aggregate"@)),
        layer_by_path(p) == Some("value_object"@) ==> (seq_contains(p, "value_objects"@) || seq_contains(p, "valueobjects"@)),
        layer_by_path(p) == Some("repository"@) ==> (seq_contains(p, "repositories"@) || seq_contains(p, "repository"@) || seq_contains(p, "repos"@)),
        layer_by_path(p) == Some("persistence"@) ==> (seq_contains(p, "database"@) || seq_contains(p, "db/"@) || seq_contains(p, "persistence"@)),
        layer_by_path(p) == Some("infrastructure"@) ==> (seq_contains(p, "adapters"@) || seq_contains(p, "adapter"@) || seq_contains(p, "infrastructure/"@)),
        layer_by_path(p) == Some("client"@) ==> (seq_contains(p, "clients"@) || seq_contains(p, "client"@)),
        layer_by_path(p) == Some("provider"@) ==> (seq_contains(p, "providers"@) || seq_contains(p, "provider"@)),
        layer_by_path(p) == Some("middleware"@) ==> (seq_contains(p, "middleware"@) || seq_contains(p, "middlewares"@)),
        layer_by_path(p) == Some("utility"@) ==> (seq_contains(p, "utils"@) || seq_contains(p, "util"@) || seq_contains(p, "helpers"@) || seq_contains(p, "helper"@) || seq_contains(p, "lib/"@)),
        layer_by_path(p) == Some("configuration"@) ==> (seq_contains(p, "config"@) || seq_contains(p, "configuration"@) || seq_contains(p, "settings"@)),
        layer_by_path(p) == Some("contract"@) ==> (seq_contains(p, "types"@) || seq_contains(p, "interfaces"@) || seq_contains(p, "contracts"@)),
        layer_by_path(p) == Some("test"@) ==> (seq_contains(p, "tests"@) || seq_contains(p, "test"@) || seq_contains(p, "__tests__"@) || seq_contains(p, "spec"@) || seq_contains(p, "specs"@)),
        layer_by_path(p) == Some("test_support"@) ==> (seq_contains(p, "fixtures"@) || seq_contains(p, "mocks"@) || seq_contains(p, "stubs"@)),
        layer_by_path(p) is None ==> !(seq_contains(p, "controllers"@) || seq_contains(p, "controller"@) || seq_contains(p, "routes"@) || seq_contains(p, "router"@) || seq_contains(p, "endpoints"@) || seq_contains(p, "api/"@)) && !(seq_contains(p, "views"@) || seq_contains(p, "view"@) || seq_contains(p, "templates"@) || seq_contains(p, "pages"@) || seq_contains(p, "components"@) || seq_contains(p, "ui/"@)) && !(seq_contains(p, "handlers"@) || seq_contains(p, "handler"@)) && !(seq_contains(p, "services"@) || seq_contains(p, "service"@) || seq_contains(p, "usecases"@) || seq_contains(p, "use_cases"@) || seq_contains(p, "application/"@)) && !(seq_contains(p, "commands"@) || seq_contains(p, "command"@)) && !(seq_contains(p, "queries"@) || seq_contains(p, "query"@)) && !(seq_contains(p, "models"@) || seq_contains(p, "model"@) || seq_contains(p, "entities"@) || seq_contains(p, "entity"@) || seq_contains(p, "domain/"@)) && !(seq_contains(p, "aggregates"@) || seq_contains(p, "aggregate"@)) && !(seq_contains(p, "value_objects"@) || seq_contains(p, "valueobjects"@)) && !(seq_contains(p, "repositories"@) || seq_contains(p, "repository"@) || seq_contains(p, "repos"@)) && !(seq_contains(p, "database"@) || seq_contains(p, "db/"@) || seq_contains(p, "persistence"@)) && !(seq_contains(p, "adapters"@) || seq_contains(p, "adapter"@) || seq_contains(p, "infrastructure/"@)) && !(seq_contains(p, "clients"@) || seq_contains(p, "client"@)) && !(seq_contains(p, "providers"@) || seq_contains(p, "provider"@)) && !(seq_contains(p, "middleware"@) || seq_contains(p, "middlewares"@)) && !(seq_contains(p, "utils"@) || seq_contains(p, "util"@) || seq_contains(p, "helpers"@) || seq_contains(p, "helper"@) || seq_contains(p, "lib/"@)) && !(seq_contains(p, "config"@) || seq_contains(p, "configuration"@) || seq_contains(p, "settings"@)) && !(seq_contains(p, "types"@) || seq_contains(p, "interfaces"@) || seq_contains(p, "contracts"@)) && !(seq_contains(p, "tests"@) || seq_contains(p, "test"@) || seq_contains(p, "__tests__"@) || seq_contains(p, "spec"@) || seq_contains(p, "specs"@)) && !(seq_contains(p, "fixtures"@) || seq_contains(p, "mocks"@) || seq_contains(p, "stubs"@)),
{
    reveal_strlit("aggregate");
    reveal_strlit("client");
    reveal_strlit("command");
    reveal_strlit("configuration");
    reveal_strlit("contract");
    reveal_strlit("controller");
    reveal_strlit("domain");
    reveal_strlit("handler");
    reveal_strlit("infrastructure");
    reveal_strlit("middleware");
    reveal_strlit("persistence");
    reveal_strlit("presentation");
    reveal_strlit("provider");
    reveal_strlit("query");
    reveal_strlit("repository");
    reveal_strlit("service");
    reveal_strlit("test");
    reveal_strlit("test_support");
    reveal_strlit("utility");
    reveal_strlit("value_object");
    assert("client"@[0] != "domain"@[0]);
    assert("command"@[0] != "handler"@[0]);
    assert("command"@[0] != "service"@[0]);
    assert("command"@[0] != "utility"@[0]);
    assert("handler"@[0] != "service"@[0]);
    assert("handler"@[0] != "utility"@[0]);
    assert("service"@[0] != "utility"@[0]);
    assert("contract"@[0] != "provider"@[0]);
    assert("controller"@[0] != "middleware"@[0]);
    assert("controller"@[0] != "repository"@[0]);
    assert("middleware"@[0] != "repository"@[0]);
    assert("presentation"@[0] != "test_support"@[0]);
    assert("presentation"@[0] != "value_object"@[0]);
    assert("test_support"@[0] != "value_object"@[0]);
    assert("aggregate"@.len() == 9);
    assert("client"@.len() == 6);
    assert("command"@.len() == 7);
    assert("configuration"@.len() == 13);
    assert("contract"@.len() == 8);
    assert("controller"@.len() == 10);
    assert("domain"@.len() == 6);
    assert("handler"@.len() == 7);
    assert("infrastructure"@.len() == 14);
    assert("middleware"@.len() == 10);
    assert("persistence"@.len() == 11);
    assert("presentation"@.len() == 12);
    assert("provider"@.len() == 8);
    assert("query"@.len() == 5);
    assert("repository"@.len() == 10);
    assert("service"@.len() == 7);
    assert("test"@.len() == 4);
    assert("test_support"@.len() == 12);
    assert("utility"@.len() == 7);
    assert("value_object"@.len() == 12);
}

/// Which layer a lower-case file stem names: the first rule, in order, whose
/// ending or beginning the stem has gives the layer, a layer is only ever
/// given for a stem with one of its rule's endings or beginnings, and a stem
/// with none names none.
pub proof fn lemma_layer_by_name_words(f: Seq<char>)
    ensures
        (seq_ends_with(f, "controller"@) || seq_ends_with(f, "_controller"@)) ==> layer_by_name(f) == Some("controller"@),
        !(seq_ends_with(f, "controller"@) || seq_ends_with(f, "_controller"@)) && (seq_ends_with(f, "service"@) || seq_ends_with(f, "_service"@)) ==> layer_by_name(f) == Some("service"@),
        !(seq_ends_with(f, "controller"@) || seq_ends_with(f, "_controller"@)) && !(seq_ends_with(f, "service"@) || seq_ends_with(f, "_service"@)) && (seq_ends_with(f, "repository"@) || seq_ends_with(f, "_repository"@) || seq_ends_with(f, "repo"@)) ==> layer_by_name(f) == Some("repository"@),
        !(seq_ends_with(f, "controller"@) || seq_ends_with(f, "_controller"@)) && !(seq_ends_with(f, "service"@) || seq_ends_with(f, "_service"@)) && !(seq_ends_with(f, "repository"@) || seq_ends_with(f, "_repository"@) || seq_ends_with(f, "repo"@)) && (seq_ends_with(f, "model"@) || seq_ends_with(f, "_model"@) || seq_ends_with(f, "entity"@)) ==> layer_by_name(f) == Some("domain"@),
        !(seq_ends_with(f, "controller"@) || seq_ends_with(f, "_controller"@)) && !(seq_ends_with(f, "service"@) || seq_ends_with(f, "_service"@)) && !(seq_ends_with(f, "repository"@) || seq_ends_with(f, "_repository"@) || seq_ends_with(f, "repo"@)) && !(seq_ends_with(f, "model"@) || seq_ends_with(f, "_model"@) || seq_ends_with(f, "entity"@)) && (seq_ends_with(f, "handler"@) || seq_ends_with(f, "_handler"@)) ==> layer_by_name(f) == Some("handler"@),
        !(seq_ends_with(f, "controller"@) || seq_ends_with(f, "_controller"@)) && !(seq_ends_with(f, "service"@) || seq_ends_with(f, "_service"@)) && !(seq_ends_with(f, "repository"@) || seq_ends_with(f, "_repository"@) || seq_ends_with(f, "repo"@)) && !(seq_ends_with(f, "model"@) || seq_ends_with(f, "_model"@) || seq_ends_with(f, "entity"@)) && !(seq_ends_with(f, "handler"@) || seq_ends_with(f, "_handler"@)) && (seq_ends_with(f, "middleware"@)) ==> layer_by_name(f) == Some("middleware"@),
        !(seq_ends_with(f, "controller"@) || seq_ends_with(f, "_controller"@)) && !(seq_ends_with(f, "service"@) || seq_ends_with(f, "_service"@)) && !(seq_ends_with(f, "repository"@) || seq_ends_with(f, "_repository"@) || seq_ends_with(f, "repo"@)) && !(seq_ends_with(f, "model"@) || seq_ends_with(f, "_model"@) || seq_ends_with(f, "entity"@)) && !(seq_ends_with(f, "handler"@) || seq_ends_with(f, "_handler"@)) && !(seq_ends_with(f, "middleware"@)) && (seq_starts_with(f, "test_"@) || seq_ends_with(f, "_test"@) || seq_ends_with(f, ".test"@) || seq_ends_with(f, ".spec"@)) ==> layer_by_name(f) == Some("test"@),
        layer_by_name(f) == Some("controller"@) ==> (seq_ends_with(f, "controller"@) || seq_ends_with(f, "_controller"@)),
        layer_by_name(f) == Some("service"@) ==> (seq_ends_with(f, "service"@) || seq_ends_with(f, "_service"@)),
        layer_by_name(f) == Some("repository"@) ==> (seq_ends_with(f, "repository"@) || seq_ends_with(f, "_repository"@) || seq_ends_with(f, "repo"@)),
        layer_by_name(f) == Some("domain"@) ==> (seq_ends_with(f, "model"@) || seq_ends_with(f, "_model"@) || seq_ends_with(f, "entity"@)),
        layer_by_name(f) == Some("handler"@) ==> (seq_ends_with(f, "handler"@) || seq_ends_with(f, "_handler"@)),
        layer_by_name(f) == Some("middleware"@) ==> (seq_ends_with(f, "middleware"@)),
        layer_by_name(f) == Some("test"@) ==> (seq_starts_with(f, "test_"@) || seq_ends_with(f, "_test"@) || seq_ends_with(f, ".test"@) || seq_ends_with(f, ".spec"@)),
        layer_by_name(f) is None ==> !(seq_ends_with(f, "controller"@) || seq_ends_with(f, "_controller"@)) && !(seq_ends_with(f, "service"@) || seq_ends_with(f, "_service"@)) && !(seq_ends_with(f, "repository"@) || seq_ends_with(f, "_repository"@) || seq_ends_with(f, "repo"@)) && !(seq_ends_with(f, "model"@) || seq_ends_with(f, "_model"@) || seq_ends_with(f, "entity"@)) && !(seq_ends_with(f, "handler"@) || seq_ends_with(f, "_handler"@)) && !(seq_ends_with(f, "middleware"@)) && !(seq_starts_with(f, "test_"@) || seq_ends_with(f, "_test"@) || seq_ends_with(f, ".test"@) || seq_ends_with(f, ".spec"@)),
{
    reveal_strlit("aggregate");
    reveal_strlit("client");
    reveal_strlit("command");
    reveal_strlit("configuration");
    reveal_strlit("contract");
    reveal_strlit("controller");
    reveal_strlit("domain");
    reveal_strlit("handler");
    reveal_strlit("infrastructure");
    reveal_strlit("middleware");
    reveal_strlit("persistence");
    reveal_strlit("presentation");
    reveal_strlit("provider");
    reveal_strlit("query");
    reveal_strlit("repository");
    reveal_strlit("service");
    reveal_strlit("test");
    reveal_strlit("test_support");
    reveal_strlit("utility");
    reveal_strlit("value_object");
    assert("client"@[0] != "domain"@[0]);
    assert("command"@[0] != "handler"@[0]);
    assert("command"@[0] != "service"@[0]);
    assert("command"@[0] != "utility"@[0]);
    assert("handler"@[0] != "service"@[0]);
    assert("handler"@[0] != "utility"@[0]);
    assert("service"@[0] != "utility"@[0]);
    assert("contract"@[0] != "provider"@[0]);
    assert("controller"@[0] != "middleware"@[0]);
    assert("controller"@[0] != "repository"@[0]);
    assert("middleware"@[0] != "repository"@[0]);
    assert("presentation"@[0] != "test_support"@[0]);
    assert("presentation"@[0] != "value_object"@[0]);
    assert("test_support"@[0] != "value_object"@[0]);
    assert("aggregate"@.len() == 9);
    assert("client"@.len() == 6);
    assert("command"@.len() == 7);
    assert("configuration"@.len() == 13);
    assert("contract"@.len() == 8);
    assert("controller"@.len() == 10);
    assert("domain"@.len() == 6);
    assert("handler"@.len() == 7);
    assert("infrastructure"@.len() == 14);
    assert("middleware"@.len() == 10);
    assert("persistence"@.len() == 11);
    assert("presentation"@.len() == 12);
    assert("provider"@.len() == 8);
    assert("query"@.len() == 5);
    assert("repository"@.len() == 10);
    assert("service"@.len() == 7);
    assert("test"@.len() == 4);
    assert("test_support"@.len() == 12);
    assert("utility"@.len() == 7);
    assert("value_object"@.len() == 12);
}

/// A layer named by the path takes precedence over one named by the stem,
/// which is used only when the path names none.
pub proof fn lemma_layer_precedence(path_lower: Seq<char>, stem_lower: Seq<char>)
    ensures
        layer_by_path(path_lower) is Some ==> layer_of(path_lower, stem_lower) == layer_by_path(path_lower),
        layer_by_path(path_lower) is None ==> layer_of(path_lower, stem_lower) == layer_by_name(stem_lower),
{
}

/// The layer of a file: by its lower-case path when a word there names one,
/// otherwise by its lower-case file stem.
pub open spec fn layer_of(path_lower: Seq<char>, stem_lower: Seq<char>) -> Option<Seq<char>> {
    match layer_by_path(path_lower) {
        Some(l) => Some(l),
        None => layer_by_name(stem_lower),
    }
}

/// View of an optional string.
pub open spec fn opt_str(s: Option<String>) -> Option<Seq<char>> {
    match s {
        Some(x) => Some(x@),
        None => None,
    }
}

/// The layer a lower-case path names, if any.
pub fn layer_from_path(p: &str) -> (r: Option<String>)
    ensures
        opt_str(r) == layer_by_path(p@),
{
    if str_contains(p, "controllers") || str_contains(p, "controller") || str_contains(p, "routes")
        || str_contains(p, "router") || str_contains(p, "endpoints") || str_contains(p, "api/") {
        Some(owned("controller"))
    } else if str_contains(p, "views") || str_contains(p, "view") || str_contains(p, "templates")
        || str_contains(p, "pages") || str_contains(p, "components") || str_contains(p, "ui/") {
        Some(owned("presentation"))
    } else if str_contains(p, "handlers") || str_contains(p, "handler") {
        Some(owned("handler"))
    } else if str_contains(p, "services") || str_contains(p, "service") || str_contains(p, "usecases")
        || str_contains(p, "use_cases") || str_contains(p, "application/") {
        Some(owned("service"))
    } else if str_contains(p, "commands") || str_contains(p, "command") {
        Some(owned("command"))
    } else if str_contains(p, "queries") || str_contains(p, "query") {
        Some(owned("query"))
    } else if str_contains(p, "models") || str_contains(p, "model") || str_contains(p, "entities")
        || str_contains(p, "entity") || str_contains(p, "domain/") {
        Some(owned("domain"))
    } else if str_contains(p, "aggregates") || str_contains(p, "aggregate") {
        Some(owned("aggregate"))
    } else if str_contains(p, "value_objects") || str_contains(p, "valueobjects") {
        Some(owned("value_object"))
    } else if str_contains(p, "repositories") || str_contains(p, "repository") || str_contains(p, "repos") {
        Some(owned("repository"))
    } else if str_contains(p, "database") || str_contains(p, "db/") || str_contains(p, "persistence") {
        Some(owned("persistence"))
    } else if str_contains(p, "adapters") || str_contains(p, "adapter") || str_contains(p, "infrastructure/") {
        Some(owned("infrastructure"))
    } else if str_contains(p, "clients") || str_contains(p, "client") {
        Some(owned("client"))
    } else if str_contains(p, "providers") || str_contains(p, "provider") {
        Some(owned("provider"))
    } else if str_contains(p, "middleware") || str_contains(p, "middlewares") {
        Some(owned("middleware"))
    } else if str_contains(p, "utils") || str_contains(p, "util") || str_contains(p, "helpers")
        || str_contains(p, "helper") || str_contains(p, "lib/") {
        Some(owned("utility"))
    } else if str_contains(p, "config") || str_contains(p, "configuration") || str_contains(p, "settings") {
        Some(owned("configuration"))
    } else if str_contains(p, "types") || str_contains(p, "interfaces") || str_contains(p, "contracts") {
        Some(owned("contract"))
    } else if str_contains(p, "tests") || str_contains(p, "test") || str_contains(p, "__tests__")
        || str_contains(p, "spec") || str_contains(p, "specs") {
        Some(owned("test"))
    } else if str_contains(p, "fixtures") || str_contains(p, "mocks") || str_contains(p, "stubs") {
        Some(owned("test_support"))
    } else {
        None
    }
}

/// The layer a lower-case file stem names, if any.
pub fn layer_from_name(f: &str) -> (r: Option<String>)
    ensures
        opt_str(r) == layer_by_name(f@),
{
    if str_ends_with(f, "controller") || str_ends_with(f, "_controller") {
        Some(owned("controller"))
    } else if str_ends_with(f, "service") || str_ends_with(f, "_service") {
        Some(owned("service"))
    } else if str_ends_with(f, "repository") || str_ends_with(f, "_repository") || str_ends_with(f, "repo") {
        Some(owned("repository"))
    } else if str_ends_with(f, "model") || str_ends_with(f, "_model") || str_ends_with(f, "entity") {
        Some(owned("domain"))
    } else if str_ends_with(f, "handler") || str_ends_with(f, "_handler") {
        Some(owned("handler"))
    } else if str_ends_with(f, "middleware") {
        Some(owned("middleware"))
    } else if str_starts_with(f, "test_") || str_ends_with(f, "_test") || str_ends_with(f, ".test")
        || str_ends_with(f, ".spec") {
        Some(owned("test"))
    } else {
        None
    }
}

/// The layer of a file from its lower-case path and lower-case file stem.
pub fn classify_layer(path_lower: &str, stem_lower: &str) -> (r: Option<String>)
    ensures
        opt_str(r) == layer_of(path_lower@, stem_lower@),
{
    match layer_from_path(path_lower) {
        Some(l) => Some(l),
        None => layer_from_name(stem_lower),
    }
}

/// The architectural layer of the file at `path`: by the words of its
/// lower-case path, else by its lower-case file stem (empty when it has none).
pub fn detect_layer(path: &str) -> (r: Option<String>)
    ensures
        layer_by_path(lowercase(path@)) is Some ==> opt_str(r) == layer_by_path(lowercase(path@)),
        exists|stem: Seq<char>| opt_str(r) == #[trigger] layer_of(lowercase(path@), lowercase(stem)),
        plain_path(path@) ==> opt_str(r) == layer_of(lowercase(path@), lowercase(file_stem_text(path@))),
{
    let path_lower = to_lower(path);
    let stem = match crate::text::path_file_stem(path) {
        Some(s) => s,
        None => String::new(),
    };
    let stem_lower = to_lower(stem.as_str());
    let r = classify_layer(path_lower.as_str(), stem_lower.as_str());
    proof {
        assert(opt_str(r) == layer_of(lowercase(path@), lowercase(stem@)));
    }
    r
}

/// At most the first `n` elements of `s`.
pub open spec fn first_n<A>(s: Seq<A>, n: int) -> Seq<A> {
    if s.len() <= n { s } else { s.take(n) }
}

/// A name counts as a test name: `test_...` or `..._test`.
pub open spec fn test_name(name: Seq<char>) -> bool {
    seq_starts_with(name, "test_"@) || seq_ends_with(name, "_test"@)
}

/// The name of node `id`, or empty.
pub open spec fn name_or_empty(g: CodeGraph, id: u64) -> Seq<char> {
    str_or_empty(g.node(id).props.name)
}

/// A symbol to consider as context, and how it relates to the subject.
pub struct RelatedCandidate {
    pub node_id: u64,
    pub relationship: String,
}

/// The candidates `(node, relationship)` of a group, as a sequence of pairs.
pub open spec fn cand_view(v: Seq<RelatedCandidate>) -> Seq<(u64, Seq<char>)> {
    v.map_values(|c: RelatedCandidate| (c.node_id, c.relationship@))
}

/// The edges leaving `node`, as `(source, target, type)` triples.
pub open spec fn out_triples(g: CodeGraph, node: u64) -> Seq<(u64, u64, EdgeType)> {
    outgoing_of(g.edges@, node).map_values(|e: GraphEdge| edge_triple(e))
}

/// The edges entering `node`, as `(source, target, type)` triples.
pub open spec fn in_triples(g: CodeGraph, node: u64) -> Seq<(u64, u64, EdgeType)> {
    incoming_of(g.edges@, node).map_values(|e: GraphEdge| edge_triple(e))
}

/// The triples of type `t`.
pub open spec fn typed(es: Seq<(u64, u64, EdgeType)>, t: EdgeType) -> Seq<(u64, u64, EdgeType)> {
    es.filter(|x: (u64, u64, EdgeType)| x.2 == t)
}

/// The sources of triples, each labelled `rel`.
pub open spec fn by_source(es: Seq<(u64, u64, EdgeType)>, rel: Seq<char>) -> Seq<(u64, Seq<char>)> {
    es.map_values(|x: (u64, u64, EdgeType)| (x.0, rel))
}

/// The targets of triples, each labelled `rel`.
pub open spec fn by_target(es: Seq<(u64, u64, EdgeType)>, rel: Seq<char>) -> Seq<(u64, Seq<char>)> {
    es.map_values(|x: (u64, u64, EdgeType)| (x.1, rel))
}

/// The candidate groups for explaining `node`: up to five things it uses,
/// up to three callers, then the types it inherits from.
pub open spec fn explain_groups(g: CodeGraph, node: u64) -> Seq<Seq<(u64, Seq<char>)>> {
    seq![
        by_target(first_n(out_triples(g, node), 5), "uses"@),
        by_source(first_n(typed(in_triples(g, node), EdgeType::Calls), 3), "called_by"@),
        by_source(typed(in_triples(g, node), EdgeType::Extends), "inherits"@),
    ]
}

/// The candidate groups for writing tests of `node`: the tests among its
/// first three callers, then up to three things it uses (to mock).
pub open spec fn test_groups(g: CodeGraph, node: u64) -> Seq<Seq<(u64, Seq<char>)>> {
    seq![
        by_source(
            first_n(typed(in_triples(g, node), EdgeType::Calls), 3).filter(
                |x: (u64, u64, EdgeType)| test_name(name_or_empty(g, x.0)),
            ),
            "example_test"@,
        ),
        by_target(first_n(out_triples(g, node), 3), "dependency_to_mock"@),
    ]
}

/// The candidate groups for modifying `node`: the tests among its first five
/// callers, then the others among them.
pub open spec fn modify_groups(g: CodeGraph, node: u64) -> Seq<Seq<(u64, Seq<char>)>> {
    let callers = first_n(typed(in_triples(g, node), EdgeType::Calls), 5);
    seq![
        by_source(callers.filter(|x: (u64, u64, EdgeType)| test_name(name_or_empty(g, x.0))), "tests"@),
        by_source(callers.filter(|x: (u64, u64, EdgeType)| !test_name(name_or_empty(g, x.0))), "called_by"@),
    ]
}

/// The callers that are tests.
pub open spec fn tests_only(g: CodeGraph, ts: Seq<(u64, u64, EdgeType)>) -> Seq<(u64, u64, EdgeType)> {
    ts.filter(|x: (u64, u64, EdgeType)| test_name(name_or_empty(g, x.0)))
}

/// The callers that are not tests.
pub open spec fn non_tests(g: CodeGraph, ts: Seq<(u64, u64, EdgeType)>) -> Seq<(u64, u64, EdgeType)> {
    ts.filter(|x: (u64, u64, EdgeType)| !test_name(name_or_empty(g, x.0)))
}

/// The triples of a kind in a prefix are a prefix of those in the whole.
pub proof fn lemma_typed_prefix(s: Seq<(u64, u64, EdgeType)>, t: EdgeType, j: int)
    requires
        0 <= j <= s.len(),
    ensures
        typed(s.take(j), t).len() <= typed(s, t).len(),
        typed(s, t).take(typed(s.take(j), t).len() as int) == typed(s.take(j), t),
    decreases s.len() - j,
{
    reveal(Seq::filter);
    if j < s.len() {
        lemma_typed_prefix(s, t, j + 1);
        assert(s.take(j + 1).drop_last() =~= s.take(j));
        let a = typed(s.take(j), t);
        let b = typed(s.take(j + 1), t);
        let h = typed(s, t);
        assert(h.take(a.len() as int) =~= b.take(a.len() as int));
    } else {
        assert(s.take(j) =~= s);
    }
}

/// The first `n` triples of a kind (any kind when `kind` is none).
fn first_of_kind(triples: &Vec<(u64, u64, EdgeType)>, kind: Option<EdgeType>, n: usize) -> (r: Vec<(u64, u64, EdgeType)>)
    ensures
        r@ == first_n(
            match kind {
                Some(t) => typed(triples@, t),
                None => triples@,
            },
            n as int,
        ),
{
    let ghost es = triples@;
    let ghost sel = match kind {
        Some(t) => typed(es, t),
        None => es,
    };
    let mut r: Vec<(u64, u64, EdgeType)> = Vec::new();
    let mut i: usize = 0;
    while i < triples.len() && r.len() < n
        invariant
            i <= triples@.len(),
            es == triples@,
            sel == (match kind {
                Some(t) => typed(es, t),
                None => es,
            }),
            r@.len() <= n,
            r@ == (match kind {
                Some(t) => typed(es.take(i as int), t),
                None => es.take(i as int),
            }),
        decreases triples@.len() - i,
    {
        let x = triples[i];
        proof {
            assert(es.take(i + 1).drop_last() =~= es.take(i as int));
            assert(es.take(i + 1).last() == x);
            reveal(Seq::filter);
        }
        let keep = match kind {
            Some(t) => x.2 == t,
            None => true,
        };
        if keep {
            r.push(x);
        }
        proof {
            match kind {
                None => {
                    assert(r@ =~= es.take(i + 1));
                },
                Some(t) => {},
            }
        }
        i = i + 1;
    }
    proof {
        match kind {
            Some(t) => {
                let pre = typed(es.take(i as int), t);
                lemma_typed_prefix(es, t, i as int);
                if r@.len() < n {
                    assert(i == triples@.len());
                    assert(es.take(i as int) =~= es);
                    assert(pre == sel);
                } else {
                    assert(sel.take(n as int) == pre);
                    if sel.len() == n {
                        assert(sel.take(n as int) =~= sel);
                    }
                }
                assert(first_n(sel, n as int) == pre);
            },
            None => {
                let pre = es.take(i as int);
                if r@.len() < n {
                    assert(i == triples@.len());
                    assert(es.take(i as int) =~= es);
                } else {
                    assert(i == n);
                    if es.len() == n {
                        assert(es.take(n as int) =~= es);
                    }
                }
                assert(first_n(sel, n as int) == pre);
            },
        }
    }
    r
}

/// Label triples by source or target, keeping all, only the tests, or only
/// the non-tests among their sources.
fn label(
    g: &CodeGraph,
    ts: &Vec<(u64, u64, EdgeType)>,
    sources: bool,
    want_test: Option<bool>,
    rel: &str,
) -> (r: Vec<RelatedCandidate>)
    requires
        g.wf(),
        want_test is Some ==> forall|k: int| 0 <= k < ts@.len() ==> g.has_node((#[trigger] ts@[k]).0),
    ensures
        ({
            let kept = match want_test {
                None => ts@,
                Some(true) => tests_only(*g, ts@),
                Some(false) => non_tests(*g, ts@),
            };
            cand_view(r@) == if sources { by_source(kept, rel@) } else { by_target(kept, rel@) }
        }),
{
    let ghost f = if sources {
        |x: (u64, u64, EdgeType)| (x.0, rel@)
    } else {
        |x: (u64, u64, EdgeType)| (x.1, rel@)
    };
    let ghost pt = |x: (u64, u64, EdgeType)| test_name(name_or_empty(*g, x.0));
    let ghost pn = |x: (u64, u64, EdgeType)| !test_name(name_or_empty(*g, x.0));
    let mut r: Vec<RelatedCandidate> = Vec::new();
    let mut i: usize = 0;
    while i < ts.len()
        invariant
            g.wf(),
            i <= ts@.len(),
            want_test is Some ==> forall|k: int| 0 <= k < ts@.len() ==> g.has_node((#[trigger] ts@[k]).0),
            f == (if sources {
                |x: (u64, u64, EdgeType)| (x.0, rel@)
            } else {
                |x: (u64, u64, EdgeType)| (x.1, rel@)
            }),
            pt == (|x: (u64, u64, EdgeType)| test_name(name_or_empty(*g, x.0))),
            pn == (|x: (u64, u64, EdgeType)| !test_name(name_or_empty(*g, x.0))),
            cand_view(r@) == (match want_test {
                None => ts@.take(i as int),
                Some(true) => ts@.take(i as int).filter(pt),
                Some(false) => ts@.take(i as int).filter(pn),
            }).map_values(f),
        decreases ts@.len() - i,
    {
        let x = ts[i];
        proof {
            if want_test is Some {
                assert(g.has_node(ts@[i as int].0));
            }
            assert(ts@.take(i + 1).drop_last() =~= ts@.take(i as int));
            assert(ts@.take(i + 1).last() == x);
            reveal(Seq::filter);
        }
        let keep = match want_test {
            None => true,
            Some(b) => {
                let name = match g.get_node(x.0) {
                    Some(n) => string_or_empty(&n.props.name),
                    None => String::new(),
                };
                proof {
                    if !g.has_node(x.0) {
                        assert(name@ =~= Seq::<char>::empty());
                    }
                }
                let is_test = str_starts_with(name.as_str(), "test_") || str_ends_with(name.as_str(), "_test");
                proof {
                    if g.has_node(x.0) {
                        assert(name@ == name_or_empty(*g, x.0));
                    }
                }
                is_test == b
            },
        };
        if keep {
            let id = if sources { x.0 } else { x.1 };
            let c = RelatedCandidate { node_id: id, relationship: owned(rel) };
            let ghost before = r@;
            r.push(c);
            proof {
                assert(cand_view(r@) =~= cand_view(before).push((id, rel@)));
            }
        }
        i = i + 1;
    }
    proof {
        assert(ts@.take(i as int) =~= ts@);
    }
    r
}

/// The first caller (along a `Calls` edge, in edge order) not yet visited.
pub open spec fn first_new_caller(ts: Seq<(u64, u64, EdgeType)>, visited: Seq<u64>) -> Option<u64>
    decreases ts.len(),
{
    if ts.len() == 0 {
        None
    } else if ts[0].2 == EdgeType::Calls && !visited.contains(ts[0].0) {
        Some(ts[0].0)
    } else {
        first_new_caller(ts.drop_first(), visited)
    }
}

/// Up to `k` more steps up the call chain from `current`, each to the first
/// caller not yet visited.
pub open spec fn caller_chain(g: CodeGraph, visited: Seq<u64>, current: u64, k: nat) -> Seq<u64>
    decreases k,
{
    if k == 0 {
        seq![]
    } else {
        match first_new_caller(in_triples(g, current), visited) {
            None => seq![],
            Some(s) => seq![s] + caller_chain(g, visited.push(s), s, (k - 1) as nat),
        }
    }
}

/// The label of a step of the call chain.
pub open spec fn chain_label(k: nat) -> Seq<char> {
    "call_chain_depth_"@ + crate::text::decimal(k)
}

/// The candidate groups for debugging `node`: up to five steps up its call
/// chain, then up to three things it uses (data flow).
pub open spec fn debug_groups(g: CodeGraph, node: u64) -> Seq<Seq<(u64, Seq<char>)>> {
    let chain = caller_chain(g, seq![node], node, 5);
    seq![
        Seq::new(chain.len(), |k: int| (chain[k], chain_label(k as nat))),
        by_target(first_n(out_triples(g, node), 3), "data_flow"@),
    ]
}

/// `id` is the target of an edge leaving `node`.
pub open spec fn used_by(g: CodeGraph, node: u64, id: u64) -> bool {
    exists|t: (u64, u64, EdgeType)| #[trigger] out_triples(g, node).contains(t) && t.1 == id
}

/// `id` is the source of an edge of type `kind` entering `node`.
pub open spec fn refers_to(g: CodeGraph, node: u64, id: u64, kind: EdgeType) -> bool {
    exists|t: (u64, u64, EdgeType)| #[trigger] in_triples(g, node).contains(t) && t.0 == id && t.2 == kind
}

/// What the first `n` of a sequence hold comes from it, and is no more than `n`.
proof fn lemma_first_n_from<A>(s: Seq<A>, n: int)
    requires
        n >= 0,
    ensures
        first_n(s, n).len() <= n,
        first_n(s, n).len() <= s.len(),
        forall|k: int| 0 <= k < first_n(s, n).len() ==> s.contains(#[trigger] first_n(s, n)[k]),
{
    assert forall|k: int| 0 <= k < first_n(s, n).len() implies s.contains(#[trigger] first_n(s, n)[k]) by {
        assert(first_n(s, n)[k] == s[k]);
    }
}

/// What a filter keeps comes from the sequence and meets the predicate.
proof fn lemma_kept_from<A>(s: Seq<A>, p: spec_fn(A) -> bool)
    ensures
        forall|k: int| 0 <= k < s.filter(p).len() ==> s.contains(#[trigger] s.filter(p)[k]) && p(s.filter(p)[k]),
{
    broadcast use vstd::seq_lib::group_filter_ensures;
    assert forall|k: int| 0 <= k < s.filter(p).len() implies s.contains(#[trigger] s.filter(p)[k]) && p(
        s.filter(p)[k],
    ) by {
        assert(s.filter(p).contains(s.filter(p)[k]));
        s.lemma_filter_contains_rev(p, s.filter(p)[k]);
    }
}

/// The candidates offered for each intent, and how each relates to the
/// symbol: to explain it, up to five things it uses (`uses`), up to three of
/// its callers (`called_by`) and what extends it (`inherits`); to modify it,
/// its calling tests (`tests`) then its other callers (`called_by`), from
/// five callers; to test it, its calling tests among three callers
/// (`example_test`) and up to three things it uses (`dependency_to_mock`); to
/// debug it, up to three things it uses (`data_flow`) after its call chain.
pub proof fn lemma_intent_candidates(g: CodeGraph, node: u64)
    ensures
        ({
            let e = explain_groups(g, node);
            &&& e.len() == 3 && e[0].len() <= 5 && e[1].len() <= 3
            &&& forall|k: int| 0 <= k < e[0].len() ==> (#[trigger] e[0][k]).1 == "uses"@ && used_by(g, node, e[0][k].0)
            &&& forall|k: int|
                0 <= k < e[1].len() ==> (#[trigger] e[1][k]).1 == "called_by"@ && refers_to(
                    g,
                    node,
                    e[1][k].0,
                    EdgeType::Calls,
                )
            &&& forall|k: int|
                0 <= k < e[2].len() ==> (#[trigger] e[2][k]).1 == "inherits"@ && refers_to(
                    g,
                    node,
                    e[2][k].0,
                    EdgeType::Extends,
                )
        }),
        ({
            let m = modify_groups(g, node);
            &&& m.len() == 2 && m[0].len() + m[1].len() <= 5
            &&& forall|k: int|
                0 <= k < m[0].len() ==> (#[trigger] m[0][k]).1 == "tests"@ && refers_to(g, node, m[0][k].0, EdgeType::Calls)
                    && test_name(name_or_empty(g, m[0][k].0))
            &&& forall|k: int|
                0 <= k < m[1].len() ==> (#[trigger] m[1][k]).1 == "called_by"@ && refers_to(
                    g,
                    node,
                    m[1][k].0,
                    EdgeType::Calls,
                ) && !test_name(name_or_empty(g, m[1][k].0))
        }),
        ({
            let t = test_groups(g, node);
            &&& t.len() == 2 && t[0].len() <= 3 && t[1].len() <= 3
            &&& forall|k: int|
                0 <= k < t[0].len() ==> (#[trigger] t[0][k]).1 == "example_test"@ && refers_to(
                    g,
                    node,
                    t[0][k].0,
                    EdgeType::Calls,
                ) && test_name(name_or_empty(g, t[0][k].0))
            &&& forall|k: int|
                0 <= k < t[1].len() ==> (#[trigger] t[1][k]).1 == "dependency_to_mock"@ && used_by(g, node, t[1][k].0)
        }),
        ({
            let d = debug_groups(g, node);
            &&& d.len() == 2 && d[1].len() <= 3
            &&& forall|k: int| 0 <= k < d[0].len() ==> (#[trigger] d[0][k]).1 == chain_label(k as nat)
            &&& forall|k: int| 0 <= k < d[1].len() ==> (#[trigger] d[1][k]).1 == "data_flow"@ && used_by(g, node, d[1][k].0)
        }),
{
    let out = out_triples(g, node);
    let inc = in_triples(g, node);
    let calls = typed(inc, EdgeType::Calls);
    let ext = typed(inc, EdgeType::Extends);
    let is_t = |x: (u64, u64, EdgeType)| test_name(name_or_empty(g, x.0));
    let not_t = |x: (u64, u64, EdgeType)| !test_name(name_or_empty(g, x.0));
    lemma_typed_members(inc, EdgeType::Calls);
    lemma_typed_members(inc, EdgeType::Extends);
    // explain
    let o5 = first_n(out, 5);
    lemma_first_n_from(out, 5);
    let c3 = first_n(calls, 3);
    lemma_first_n_from(calls, 3);
    let e = explain_groups(g, node);
    assert forall|k: int| 0 <= k < e[0].len() implies (#[trigger] e[0][k]).1 == "uses"@ && used_by(g, node, e[0][k].0) by {
        assert(out.contains(o5[k]));
    }
    assert forall|k: int| 0 <= k < e[1].len() implies (#[trigger] e[1][k]).1 == "called_by"@ && refers_to(
        g,
        node,
        e[1][k].0,
        EdgeType::Calls,
    ) by {
        assert(calls.contains(c3[k]));
        let j = choose|j: int| 0 <= j < calls.len() && calls[j] == c3[k];
        assert(inc.contains(calls[j]));
    }
    assert forall|k: int| 0 <= k < e[2].len() implies (#[trigger] e[2][k]).1 == "inherits"@ && refers_to(
        g,
        node,
        e[2][k].0,
        EdgeType::Extends,
    ) by {
        assert(inc.contains(ext[k]));
    }
    // modify
    let c5 = first_n(calls, 5);
    lemma_first_n_from(calls, 5);
    lemma_kept_from(c5, is_t);
    lemma_kept_from(c5, not_t);
    let m = modify_groups(g, node);
    assert forall|k: int| 0 <= k < m[0].len() implies (#[trigger] m[0][k]).1 == "tests"@ && refers_to(
        g,
        node,
        m[0][k].0,
        EdgeType::Calls,
    ) && test_name(name_or_empty(g, m[0][k].0)) by {
        let x = c5.filter(is_t)[k];
        assert(c5.contains(x));
        let i = choose|i: int| 0 <= i < c5.len() && c5[i] == x;
        assert(calls.contains(c5[i]));
        let j = choose|j: int| 0 <= j < calls.len() && calls[j] == x;
        assert(inc.contains(calls[j]));
    }
    assert forall|k: int| 0 <= k < m[1].len() implies (#[trigger] m[1][k]).1 == "called_by"@ && refers_to(
        g,
        node,
        m[1][k].0,
        EdgeType::Calls,
    ) && !test_name(name_or_empty(g, m[1][k].0)) by {
        let x = c5.filter(not_t)[k];
        assert(c5.contains(x));
        let i = choose|i: int| 0 <= i < c5.len() && c5[i] == x;
        assert(calls.contains(c5[i]));
        let j = choose|j: int| 0 <= j < calls.len() && calls[j] == x;
        assert(inc.contains(calls[j]));
    }
    lemma_filter_split_len(c5, is_t, not_t);
    // test
    lemma_kept_from(c3, is_t);
    c3.lemma_filter_len(is_t);
    let o3 = first_n(out, 3);
    lemma_first_n_from(out, 3);
    let t = test_groups(g, node);
    assert forall|k: int| 0 <= k < t[0].len() implies (#[trigger] t[0][k]).1 == "example_test"@ && refers_to(
        g,
        node,
        t[0][k].0,
        EdgeType::Calls,
    ) && test_name(name_or_empty(g, t[0][k].0)) by {
        let x = c3.filter(is_t)[k];
        assert(c3.contains(x));
        let i = choose|i: int| 0 <= i < c3.len() && c3[i] == x;
        assert(calls.contains(c3[i]));
        let j = choose|j: int| 0 <= j < calls.len() && calls[j] == x;
        assert(inc.contains(calls[j]));
    }
    assert forall|k: int| 0 <= k < t[1].len() implies (#[trigger] t[1][k]).1 == "dependency_to_mock"@ && used_by(
        g,
        node,
        t[1][k].0,
    ) by {
        assert(out.contains(o3[k]));
    }
    let d = debug_groups(g, node);
    assert forall|k: int| 0 <= k < d[1].len() implies (#[trigger] d[1][k]).1 == "data_flow"@ && used_by(
        g,
        node,
        d[1][k].0,
    ) by {
        assert(out.contains(o3[k]));
    }
}

/// The triples of a kind come from the sequence and are of that kind.
proof fn lemma_typed_members(s: Seq<(u64, u64, EdgeType)>, t: EdgeType)
    ensures
        forall|k: int| 0 <= k < typed(s, t).len() ==> s.contains(#[trigger] typed(s, t)[k]) && typed(s, t)[k].2 == t,
    decreases s.len(),
{
    reveal(Seq::filter);
    if s.len() > 0 {
        let pre = s.drop_last();
        lemma_typed_members(pre, t);
        let r = typed(pre, t);
        assert forall|k: int| 0 <= k < typed(s, t).len() implies s.contains(#[trigger] typed(s, t)[k]) && typed(
            s,
            t,
        )[k].2 == t by {
            if k < r.len() {
                assert(typed(s, t)[k] == r[k]);
                let i = choose|i: int| 0 <= i < pre.len() && pre[i] == r[k];
                assert(s[i] == pre[i]);
            } else {
                assert(typed(s, t)[k] == s.last());
                assert(s[s.len() - 1] == s.last());
            }
        }
    }
}

/// Splitting a sequence by a predicate and its negation keeps no more than
/// the whole.
proof fn lemma_filter_split_len<A>(s: Seq<A>, p: spec_fn(A) -> bool, q: spec_fn(A) -> bool)
    requires
        forall|x: A| #[trigger] q(x) == !p(x),
    ensures
        s.filter(p).len() + s.filter(q).len() <= s.len(),
    decreases s.len(),
{
    reveal(Seq::filter);
    if s.len() > 0 {
        lemma_filter_split_len(s.drop_last(), p, q);
        assert(q(s.last()) == !p(s.last()));
    }
}

/// The first caller not yet visited among some triples.
fn find_new_caller(ts: &Vec<(u64, u64, EdgeType)>, visited: &Vec<u64>) -> (r: Option<u64>)
    ensures
        r == first_new_caller(ts@, visited@),
{
    let mut i: usize = 0;
    assert(ts@.skip(0) =~= ts@);
    while i < ts.len()
        invariant
            i <= ts@.len(),
            first_new_caller(ts@, visited@) == first_new_caller(ts@.skip(i as int), visited@),
        decreases ts@.len() - i,
    {
        let x = ts[i];
        proof {
            assert(ts@.skip(i as int)[0] == x);
            assert(ts@.skip(i as int).drop_first() =~= ts@.skip(i + 1));
        }
        if x.2 == EdgeType::Calls && !crate::graph::vec_contains_u64(visited, x.0) {
            return Some(x.0);
        }
        i = i + 1;
    }
    None
}

/// Up to five steps up the call chain of `node`, each to the first caller
/// not yet visited.
pub fn debug_call_chain(g: &CodeGraph, node: u64) -> (r: Vec<u64>)
    ensures
        r@ == caller_chain(*g, seq![node], node, 5),
{
    let mut visited: Vec<u64> = Vec::new();
    visited.push(node);
    let mut chain: Vec<u64> = Vec::new();
    let mut current = node;
    let mut depth: usize = 0;
    assert(visited@ =~= seq![node]);
    while depth < 5
        invariant
            depth <= 5,
            chain@.len() == depth,
            chain@ + caller_chain(*g, visited@, current, (5 - depth) as nat) == caller_chain(*g, seq![node], node, 5),
        decreases 5 - depth,
    {
        let inc = g.get_connected_edges(current, Direction::Incoming);
        match find_new_caller(&inc, &visited) {
            Some(s) => {
                let ghost before = chain@;
                let ghost vis = visited@;
                proof {
                    assert(caller_chain(*g, vis, current, (5 - depth) as nat) == seq![s] + caller_chain(
                        *g,
                        vis.push(s),
                        s,
                        (5 - depth - 1) as nat,
                    ));
                }
                visited.push(s);
                chain.push(s);
                current = s;
                depth = depth + 1;
                proof {
                    assert(before + (seq![s] + caller_chain(*g, visited@, current, (5 - depth) as nat)) =~= chain@
                        + caller_chain(*g, visited@, current, (5 - depth) as nat));
                }
            },
            None => {
                proof {
                    assert(caller_chain(*g, visited@, current, (5 - depth) as nat) =~= Seq::<u64>::empty());
                    assert(chain@ + Seq::<u64>::empty() =~= chain@);
                }
                return chain;
            },
        }
    }
    proof {
        assert(chain@ + Seq::<u64>::empty() =~= chain@);
    }
    chain
}

/// A node's candidate groups as pairs.
pub open spec fn groups_view(r: Seq<Vec<RelatedCandidate>>) -> Seq<Seq<(u64, Seq<char>)>> {
    r.map_values(|v: Vec<RelatedCandidate>| cand_view(v@))
}

/// The candidate groups of related symbols for an intent (`explain`,
/// `modify`, `debug` or `test`; none for any other intent). Each group is
/// tried in order while tokens are left.
pub fn intent_candidates(g: &CodeGraph, node: u64, intent: &str) -> (r: Vec<Vec<RelatedCandidate>>)
    requires
        g.wf(),
    ensures
        groups_view(r@) == (if intent@ == "explain"@ {
            explain_groups(*g, node)
        } else if intent@ == "modify"@ {
            modify_groups(*g, node)
        } else if intent@ == "debug"@ {
            debug_groups(*g, node)
        } else if intent@ == "test"@ {
            test_groups(*g, node)
        } else {
            seq![]
        }),
{
    let out = g.get_connected_edges(node, Direction::Outgoing);
    let inc = g.get_connected_edges(node, Direction::Incoming);
    proof {
        assert forall|k: int| 0 <= k < inc@.len() implies g.has_node((#[trigger] inc@[k]).0) by {
            let e = incoming_of(g.edges@, node)[k];
            assert(inc@[k] == edge_triple(e));
            crate::graph::lemma_select_contains(g.edges@, |e: GraphEdge| e.target == node, e);
            assert(incoming_of(g.edges@, node).contains(e));
            let j = choose|j: int| 0 <= j < g.edges@.len() && g.edges@[j] == e;
            assert(g.has_node(g.edges@[j].source));
        }
    }
    let mut r: Vec<Vec<RelatedCandidate>> = Vec::new();
    if str_eq(intent, "explain") {
        let a = first_of_kind(&out, None, 5);
        let b = first_of_kind(&inc, Some(EdgeType::Calls), 3);
        let c = first_of_kind(&inc, Some(EdgeType::Extends), usize::MAX);
        let inc_len = inc.len();
        proof {
            assert(inc@.len() == inc_len);
            lemma_typed_from(inc@, EdgeType::Extends, (0u64, 0u64, EdgeType::Extends));
            assert(first_n(typed(inc@, EdgeType::Extends), usize::MAX as int) == typed(inc@, EdgeType::Extends));
            assert forall|k: int| 0 <= k < b@.len() implies g.has_node((#[trigger] b@[k]).0) by {
                let j = lemma_first_typed_from(inc@, EdgeType::Calls, 3, k);
                assert(g.has_node(inc@[j].0));
            }
            assert forall|k: int| 0 <= k < c@.len() implies g.has_node((#[trigger] c@[k]).0) by {
                let j = lemma_first_typed_from(inc@, EdgeType::Extends, usize::MAX as int, k);
                assert(g.has_node(inc@[j].0));
            }
        }
        r.push(label(g, &a, false, None, "uses"));
        r.push(label(g, &b, true, None, "called_by"));
        r.push(label(g, &c, true, None, "inherits"));
        proof {
            assert(groups_view(r@) =~= explain_groups(*g, node));
        }
    } else if str_eq(intent, "modify") {
        let callers = first_of_kind(&inc, Some(EdgeType::Calls), 5);
        proof {
            assert forall|k: int| 0 <= k < callers@.len() implies g.has_node((#[trigger] callers@[k]).0) by {
                let j = lemma_first_typed_from(inc@, EdgeType::Calls, 5, k);
                assert(g.has_node(inc@[j].0));
            }
        }
        r.push(label(g, &callers, true, Some(true), "tests"));
        r.push(label(g, &callers, true, Some(false), "called_by"));
        proof {
            assert(groups_view(r@) =~= modify_groups(*g, node));
        }
    } else if str_eq(intent, "debug") {
        let chain = debug_call_chain(g, node);
        let mut steps: Vec<RelatedCandidate> = Vec::new();
        let mut k: usize = 0;
        while k < chain.len()
            invariant
                k <= chain@.len(),
                cand_view(steps@) == Seq::new(k as nat, |j: int| (chain@[j], chain_label(j as nat))),
            decreases chain@.len() - k,
        {
            let d = crate::text::decimal_string(k as u64);
            let label_k = concat("call_chain_depth_", d.as_str());
            let ghost before = steps@;
            let ghost lv = label_k@;
            steps.push(RelatedCandidate { node_id: chain[k], relationship: label_k });
            proof {
                assert(cand_view(steps@) =~= cand_view(before).push((chain@[k as int], lv)));
                assert(lv == chain_label(k as nat));
                assert(cand_view(steps@) =~= Seq::new((k + 1) as nat, |j: int| (chain@[j], chain_label(j as nat))));
            }
            k = k + 1;
        }
        let data = first_of_kind(&out, None, 3);
        r.push(steps);
        r.push(label(g, &data, false, None, "data_flow"));
        proof {
            assert(groups_view(r@) =~= debug_groups(*g, node));
        }
    } else if str_eq(intent, "test") {
        let callers = first_of_kind(&inc, Some(EdgeType::Calls), 3);
        proof {
            assert forall|k: int| 0 <= k < callers@.len() implies g.has_node((#[trigger] callers@[k]).0) by {
                let j = lemma_first_typed_from(inc@, EdgeType::Calls, 3, k);
                assert(g.has_node(inc@[j].0));
            }
        }
        let data = first_of_kind(&out, None, 3);
        r.push(label(g, &callers, true, Some(true), "example_test"));
        r.push(label(g, &data, false, None, "dependency_to_mock"));
        proof {
            assert(groups_view(r@) =~= test_groups(*g, node));
        }
    } else {
        proof {
            assert(groups_view(r@) =~= Seq::<Seq<(u64, Seq<char>)>>::empty());
        }
    }
    r
}

/// Each of the first `n` triples of a kind is a triple of the whole.
pub proof fn lemma_first_typed_from(s: Seq<(u64, u64, EdgeType)>, t: EdgeType, n: int, k: int) -> (j: int)
    requires
        0 <= n,
        0 <= k < first_n(typed(s, t), n).len(),
    ensures
        0 <= j < s.len(),
        s[j] == first_n(typed(s, t), n)[k],
{
    let f = typed(s, t);
    assert(k < f.len());
    assert(first_n(f, n)[k] == f[k]);
    assert(f.contains(f[k]));
    lemma_typed_from(s, t, f[k]);
    choose|j: int| 0 <= j < s.len() && s[j] == f[k]
}

/// A triple of a kind among `s` is one of `s`, and there are no more of them
/// than triples in `s`.
pub proof fn lemma_typed_from(s: Seq<(u64, u64, EdgeType)>, t: EdgeType, x: (u64, u64, EdgeType))
    ensures
        typed(s, t).contains(x) ==> s.contains(x),
        typed(s, t).len() <= s.len(),
    decreases s.len(),
{
    reveal(Seq::filter);
    if s.len() > 0 {
        lemma_typed_from(s.drop_last(), t, x);
        let r = typed(s.drop_last(), t);
        if typed(s, t).contains(x) {
            if r.contains(x) {
                let i = choose|i: int| 0 <= i < s.drop_last().len() && s.drop_last()[i] == x;
                assert(s[i] == x);
            } else {
                assert(x == s.last());
                assert(s[s.len() - 1] == x);
            }
        }
    }
}

/// An edge that shows a use of its target: a call or a reference.
pub open spec fn is_usage(x: (u64, u64, EdgeType)) -> bool {
    x.2 == EdgeType::Calls || x.2 == EdgeType::References
}

/// The candidates for usage examples of `node`: among the first three
/// callers or referrers, those that are not tests.
pub open spec fn usage_candidates_of(g: CodeGraph, node: u64) -> Seq<(u64, Seq<char>)> {
    by_source(
        non_tests(g, first_n(in_triples(g, node).filter(|x: (u64, u64, EdgeType)| is_usage(x)), 3)),
        "usage"@,
    )
}

/// An AI context draws on at most three usage examples, and names at most
/// ten dependencies.
pub proof fn lemma_ai_context_limits(g: CodeGraph, node: u64)
    ensures
        usage_candidates_of(g, node).len() <= 3,
        dependency_infos_of(g, node).len() <= 10,
{
    let firsts = first_n(in_triples(g, node).filter(|x: (u64, u64, EdgeType)| is_usage(x)), 3);
    firsts.lemma_filter_len(|x: (u64, u64, EdgeType)| !test_name(name_or_empty(g, x.0)));
    assert(non_tests(g, firsts).len() <= firsts.len());
}

/// The candidates for usage examples of `node`.
pub fn usage_candidates(g: &CodeGraph, node: u64) -> (r: Vec<RelatedCandidate>)
    requires
        g.wf(),
    ensures
        cand_view(r@) == usage_candidates_of(*g, node),
{
    let inc = g.get_connected_edges(node, Direction::Incoming);
    let ghost es = inc@;
    let ghost p = |x: (u64, u64, EdgeType)| is_usage(x);
    let mut firsts: Vec<(u64, u64, EdgeType)> = Vec::new();
    let mut i: usize = 0;
    while i < inc.len() && firsts.len() < 3
        invariant
            i <= inc@.len(),
            es == inc@,
            p == (|x: (u64, u64, EdgeType)| is_usage(x)),
            firsts@.len() <= 3,
            firsts@ == es.take(i as int).filter(p),
        decreases inc@.len() - i,
    {
        let x = inc[i];
        proof {
            assert(es.take(i + 1).drop_last() =~= es.take(i as int));
            assert(es.take(i + 1).last() == x);
            reveal(Seq::filter);
        }
        if x.2 == EdgeType::Calls || x.2 == EdgeType::References {
            firsts.push(x);
        }
        i = i + 1;
    }
    proof {
        crate::analysis::lemma_filter_prefix(es, p, i as int);
        let all = es.filter(p);
        if firsts@.len() < 3 {
            assert(es.take(i as int) =~= es);
        } else if all.len() == 3 {
            assert(all.take(3) =~= all);
        }
        assert(first_n(all, 3) == firsts@);
        assert forall|k: int| 0 <= k < firsts@.len() implies g.has_node((#[trigger] firsts@[k]).0) by {
            assert(all.contains(firsts@[k])) by {
                assert(all[k] == firsts@[k]);
            }
            es.lemma_filter_contains_rev(p, firsts@[k]);
            let j = choose|j: int| 0 <= j < es.len() && es[j] == firsts@[k];
            let e = incoming_of(g.edges@, node)[j];
            crate::graph::lemma_select_contains(g.edges@, |e: GraphEdge| e.target == node, e);
            assert(incoming_of(g.edges@, node).contains(e));
            let m = choose|m: int| 0 <= m < g.edges@.len() && g.edges@[m] == e;
            assert(g.has_node(g.edges@[m].source));
        }
    }
    label(g, &firsts, true, Some(false), "usage")
}

/// An imported dependency of a symbol.
pub struct DependencyInfo {
    pub name: String,
    pub dep_type: String,
    pub code: Option<String>,
}

/// The names of the first ten things `node` imports.
pub open spec fn dependency_infos_of(g: CodeGraph, node: u64) -> Seq<Seq<char>> {
    first_n(typed(out_triples(g, node), EdgeType::Imports), 10).map_values(
        |x: (u64, u64, EdgeType)| name_or_empty(g, x.1),
    )
}

/// The first ten things `node` imports, by name.
pub fn get_dependencies(g: &CodeGraph, node: u64) -> (r: Vec<DependencyInfo>)
    requires
        g.wf(),
    ensures
        r@.map_values(|d: DependencyInfo| d.name@) == dependency_infos_of(*g, node),
        forall|k: int| 0 <= k < r@.len() ==> (#[trigger] r@[k]).dep_type@ == "import"@ && r@[k].code is None,
{
    let out = g.get_connected_edges(node, Direction::Outgoing);
    let firsts = first_of_kind(&out, Some(EdgeType::Imports), 10);
    let ghost fd = |d: DependencyInfo| d.name@;
    let ghost fx = |x: (u64, u64, EdgeType)| name_or_empty(*g, x.1);
    let mut r: Vec<DependencyInfo> = Vec::new();
    let mut i: usize = 0;
    while i < firsts.len()
        invariant
            g.wf(),
            i <= firsts@.len(),
            firsts@ == first_n(typed(out@, EdgeType::Imports), 10),
            out@ == out_triples(*g, node),
            fd == (|d: DependencyInfo| d.name@),
            fx == (|x: (u64, u64, EdgeType)| name_or_empty(*g, x.1)),
            r@.map_values(fd) == firsts@.take(i as int).map_values(fx),
            forall|k: int| 0 <= k < r@.len() ==> (#[trigger] r@[k]).dep_type@ == "import"@ && r@[k].code is None,
        decreases firsts@.len() - i,
    {
        let x = firsts[i];
        proof {
            let j = lemma_first_typed_from(out@, EdgeType::Imports, 10, i as int);
            let e = outgoing_of(g.edges@, node)[j];
            assert(out@[j] == edge_triple(e));
            crate::graph::lemma_select_contains(g.edges@, |e: GraphEdge| e.source == node, e);
            assert(outgoing_of(g.edges@, node).contains(e));
            let m = choose|m: int| 0 <= m < g.edges@.len() && g.edges@[m] == e;
            assert(g.has_node(g.edges@[m].target));
        }
        let name = match g.get_node(x.1) {
            Some(n) => string_or_empty(&n.props.name),
            None => String::new(),
        };
        let d = DependencyInfo { name, dep_type: owned("import"), code: None };
        let ghost before = r@;
        let ghost dn = d.name@;
        r.push(d);
        proof {
            assert(r@.map_values(fd) =~= before.map_values(fd).push(dn));
            assert(firsts@.take(i + 1).map_values(fx) =~= firsts@.take(i as int).map_values(fx).push(fx(x)));
        }
        i = i + 1;
    }
    proof {
        assert(firsts@.take(i as int) =~= firsts@);
    }
    r
}

/// Where a symbol stands in the architecture: its module, its layer, and
/// the modules next to it.
#[derive(Clone, Debug)]
pub struct ArchitectureInfo {
    pub module: String,
    pub layer: Option<String>,
    pub neighbors: Vec<String>,
}

/// The known module names among `stems`.
pub open spec fn known_modules(stems: Seq<Option<String>>) -> Set<Seq<char>> {
    Set::new(|m: Seq<char>| exists|i: int| 0 <= i < stems.len() && opt_str(#[trigger] stems[i]) == Some(m))
}

/// The modules next to `module`: each known module of `stems` other than
/// `module`, once.
pub fn neighbor_modules(module: &str, stems: &Vec<Option<String>>) -> (r: Vec<String>)
    ensures
        views(r@).no_duplicates(),
        views(r@).to_set() == known_modules(stems@).remove(module@),
{
    let mut r: Vec<String> = Vec::new();
    let mut i: usize = 0;
    while i < stems.len()
        invariant
            i <= stems@.len(),
            views(r@).no_duplicates(),
            views(r@).to_set() == known_modules(stems@.take(i as int)).remove(module@),
        decreases stems@.len() - i,
    {
        let ghost rb = views(r@);
        proof {
            assert(stems@.take(i + 1) =~= stems@.take(i as int).push(stems@[i as int]));
        }
        match &stems[i] {
            Some(m) => {
                if !str_eq(m.as_str(), module) && !crate::engine::contains_string(&r, m.as_str()) {
                    r.push(m.clone());
                    proof {
                        assert(views(r@) =~= rb.push(m@));
                        assert forall|a: int, b: int| 0 <= a < b < views(r@).len() implies views(r@)[a] != views(r@)[b] by {
                            if b == rb.len() {
                                assert(rb.contains(rb[a]));
                            }
                        }
                        rb.lemma_push_to_set_commute(m@);
                    }
                }
            },
            None => {},
        }
        proof {
            assert forall|x: Seq<char>| #[trigger] views(r@).to_set().contains(x) <==> known_modules(stems@.take(i + 1)).remove(module@).contains(x) by {
                if known_modules(stems@.take(i + 1)).contains(x) {
                    let j = choose|j: int| 0 <= j < stems@.take(i + 1).len() && opt_str(#[trigger] stems@.take(i + 1)[j]) == Some(x);
                    if j < i {
                        assert(stems@.take(i as int)[j] == stems@.take(i + 1)[j]);
                        assert(known_modules(stems@.take(i as int)).contains(x));
                    }
                }
                if known_modules(stems@.take(i as int)).contains(x) {
                    let j = choose|j: int| 0 <= j < stems@.take(i as int).len() && opt_str(#[trigger] stems@.take(i as int)[j]) == Some(x);
                    assert(stems@.take(i + 1)[j] == stems@.take(i as int)[j]);
                }
                if x == views(r@).last() && views(r@).len() > rb.len() {
                    assert(stems@.take(i + 1)[i as int] == stems@[i as int]);
                }
                if opt_str(stems@[i as int]) == Some(x) {
                    assert(stems@.take(i + 1)[i as int] == stems@[i as int]);
                }
            }
            assert(views(r@).to_set() =~= known_modules(stems@.take(i + 1)).remove(module@));
        }
        i = i + 1;
    }
    proof {
        assert(stems@.take(i as int) =~= stems@);
    }
    r
}

/// The file of node `id`: its `path`, else the symbol index's entry.
pub open spec fn arch_path(g: CodeGraph, files: Seq<(u64, String)>, id: u64) -> Seq<char> {
    match g.node(id).props.path {
        Some(p) => p@,
        None => match crate::analysis::file_lookup(files, id) {
            Some(f) => f,
            None => seq![],
        },
    }
}

/// The other end of an edge from or to `node_id`.
pub open spec fn other_end(node_id: u64, e: (u64, u64, EdgeType)) -> u64 {
    if e.0 == node_id {
        e.1
    } else {
        e.0
    }
}

/// The paths recorded by the other ends of `edges` (from or to `node_id`)
/// that are in the graph and record one, in edge order.
pub open spec fn other_paths(g: CodeGraph, node_id: u64, edges: Seq<(u64, u64, EdgeType)>) -> Seq<Seq<char>>
    decreases edges.len(),
{
    if edges.len() == 0 {
        seq![]
    } else {
        let r = other_paths(g, node_id, edges.drop_last());
        let o = other_end(node_id, edges.last());
        if g.has_node(o) {
            match g.node(o).props.path {
                Some(p) => r.push(p@),
                None => r,
            }
        } else {
            r
        }
    }
}

/// The paths recorded by the other ends of the edges leaving and then
/// entering `node_id`.
pub open spec fn arch_others(g: CodeGraph, node_id: u64) -> Seq<Seq<char>> {
    other_paths(g, node_id, out_triples(g, node_id)) + other_paths(g, node_id, in_triples(g, node_id))
}

/// Appends to `stems` the file stem of the other end of each edge of
/// `edges` (from or to `node_id`) that records a path: one entry per such
/// edge, after the entries already there, the stem of a plain path being
/// its file stem.
fn other_stems(g: &CodeGraph, node_id: u64, edges: &Vec<(u64, u64, EdgeType)>, stems: &mut Vec<Option<String>>)
    requires
        g.wf(),
    ensures
        final(stems)@.len() == old(stems)@.len() + other_paths(*g, node_id, edges@).len(),
        final(stems)@.subrange(0, old(stems)@.len() as int) == old(stems)@,
        forall|k: int|
            0 <= k < other_paths(*g, node_id, edges@).len() && plain_path(
                #[trigger] other_paths(*g, node_id, edges@)[k],
            ) ==> opt_str(final(stems)@[old(stems)@.len() + k]) == Some(
                file_stem_text(other_paths(*g, node_id, edges@)[k]),
            ),
{
    let ghost s0 = stems@;
    let mut i: usize = 0;
    while i < edges.len()
        invariant
            g.wf(),
            i <= edges@.len(),
            stems@.len() == s0.len() + other_paths(*g, node_id, edges@.take(i as int)).len(),
            stems@.subrange(0, s0.len() as int) == s0,
            forall|k: int|
                0 <= k < other_paths(*g, node_id, edges@.take(i as int)).len() && plain_path(
                    #[trigger] other_paths(*g, node_id, edges@.take(i as int))[k],
                ) ==> opt_str(stems@[s0.len() + k]) == Some(
                    file_stem_text(other_paths(*g, node_id, edges@.take(i as int))[k]),
                ),
        decreases edges@.len() - i,
    {
        let (s, t, _) = edges[i];
        let ghost prev = other_paths(*g, node_id, edges@.take(i as int));
        proof {
            assert(edges@.take(i + 1).drop_last() =~= edges@.take(i as int));
            assert(edges@.take(i + 1).last() == edges@[i as int]);
        }
        let other = if s == node_id {
            t
        } else {
            s
        };
        let ghost before = stems@;
        match g.get_node(other) {
            Some(o) => match &o.props.path {
                Some(op) => {
                    stems.push(crate::text::path_file_stem(op.as_str()));
                    assert(stems@.subrange(0, s0.len() as int) =~= before.subrange(0, s0.len() as int));
                    proof {
                        let cur = other_paths(*g, node_id, edges@.take(i + 1));
                        assert(cur == prev.push(op@));
                        assert forall|k: int|
                            0 <= k < cur.len() && plain_path(#[trigger] cur[k]) implies opt_str(stems@[s0.len() + k])
                            == Some(file_stem_text(cur[k])) by {
                            if k < prev.len() {
                                assert(cur[k] == prev[k]);
                                assert(stems@[s0.len() + k] == before[s0.len() + k]);
                            }
                        }
                    }
                },
                None => {
                    assert(other_paths(*g, node_id, edges@.take(i + 1)) == prev);
                },
            },
            None => {
                assert(other_paths(*g, node_id, edges@.take(i + 1)) == prev);
            },
        }
        i = i + 1;
    }
    proof {
        assert(edges@.take(i as int) =~= edges@);
    }
}

/// Where the symbol of node `node_id` stands: none where the node is absent
/// or no file is known for it (its `path`, else the symbol index's entry
/// `files`). Its module is the file's stem (`unknown` where there is none),
/// its layer the one `detect_layer` gives the file, its neighbors the
/// modules of the other ends of its edges that record a path, other than
/// its own, each once.
pub fn get_architecture_info(g: &CodeGraph, node_id: u64, files: &Vec<(u64, String)>) -> (r: Option<ArchitectureInfo>)
    requires
        g.wf(),
    ensures
        r is None <==> (!g.has_node(node_id) || (g.node(node_id).props.path is None && crate::analysis::file_lookup(
            files@,
            node_id,
        ) is None)),
        r matches Some(a) ==> {
            let path = arch_path(*g, files@, node_id);
            &&& (layer_by_path(lowercase(path)) is Some ==> opt_str(a.layer) == layer_by_path(lowercase(path)))
            &&& exists|stem: Seq<char>| opt_str(a.layer) == #[trigger] layer_of(lowercase(path), lowercase(stem))
            &&& views(a.neighbors@).no_duplicates()
            &&& !views(a.neighbors@).contains(a.module@)
            &&& plain_path(path) ==> a.module@ == file_stem_text(path)
            &&& (plain_path(path) && forall|k: int|
                0 <= k < arch_others(*g, node_id).len() ==> plain_path(#[trigger] arch_others(*g, node_id)[k]))
                ==> views(a.neighbors@).to_set() == arch_others(*g, node_id).map_values(
                |q: Seq<char>| file_stem_text(q),
            ).to_set().remove(a.module@)
        },
{
    let n = match g.get_node(node_id) {
        Some(n) => n,
        None => {
            return None;
        },
    };
    let path: String = match &n.props.path {
        Some(p) => p.clone(),
        None => match crate::analysis::file_for_node(files, node_id) {
            Some(f) => f,
            None => {
                return None;
            },
        },
    };
    let module = match crate::text::path_file_stem(path.as_str()) {
        Some(m) => m,
        None => owned("unknown"),
    };
    let layer = detect_layer(path.as_str());
    let out = g.get_connected_edges(node_id, Direction::Outgoing);
    let inc = g.get_connected_edges(node_id, Direction::Incoming);
    let mut stems: Vec<Option<String>> = Vec::new();
    other_stems(g, node_id, &out, &mut stems);
    other_stems(g, node_id, &inc, &mut stems);
    let neighbors = neighbor_modules(module.as_str(), &stems);
    proof {
        let others = arch_others(*g, node_id);
        let po = other_paths(*g, node_id, out@);
        let pi = other_paths(*g, node_id, inc@);
        assert(others == po + pi);
        if forall|k: int| 0 <= k < others.len() ==> plain_path(#[trigger] others[k]) {
            let f = |q: Seq<char>| file_stem_text(q);
            let m = others.map_values(f);
            assert forall|i: int| 0 <= i < stems@.len() implies opt_str(#[trigger] stems@[i]) == Some(m[i]) by {
                if i < po.len() {
                    assert(plain_path(others[i]));
                    assert(others[i] == po[i]);
                    assert(stems@.subrange(0, po.len() as int)[i] == stems@[i]);
                } else {
                    let k = i - po.len();
                    assert(others[i] == pi[k]);
                    assert(plain_path(pi[k]));
                }
            }
            assert forall|x: Seq<char>| known_modules(stems@).contains(x) <==> m.to_set().contains(x) by {
                if known_modules(stems@).contains(x) {
                    let i = choose|i: int| 0 <= i < stems@.len() && opt_str(#[trigger] stems@[i]) == Some(x);
                    assert(m[i] == x);
                    assert(m.contains(x));
                }
                if m.to_set().contains(x) {
                    assert(m.contains(x));
                    let i = choose|i: int| 0 <= i < m.len() && m[i] == x;
                    assert(opt_str(stems@[i]) == Some(x));
                }
            }
            assert(known_modules(stems@) =~= m.to_set());
        }
        assert(!known_modules(stems@).remove(module@).contains(module@));
        if views(neighbors@).contains(module@) {
            let k = choose|k: int| 0 <= k < views(neighbors@).len() && views(neighbors@)[k] == module@;
            assert(views(neighbors@).to_set().contains(module@));
        }
        assert(path@ == arch_path(*g, files@, node_id));
        let stem = choose|stem: Seq<char>| opt_str(layer) == #[trigger] layer_of(lowercase(path@), lowercase(stem));
        assert(opt_str(layer) == layer_of(lowercase(arch_path(*g, files@, node_id)), lowercase(stem)));
    }
    Some(ArchitectureInfo { module, layer, neighbors })
}

/// What an AI context reports of itself.
#[derive(Clone, Debug)]
pub struct ContextMetadata {
    pub total_tokens: usize,
    pub query_time: u64,
    /// Whether the nearest symbol stood in for a position with none.
    pub used_fallback: Option<bool>,
    /// Why the nearest symbol stood in.
    pub fallback_message: Option<String>,
}

/// The note given when the nearest symbol stands in for the cursor.
pub open spec fn cursor_fallback_note(name: Seq<char>) -> Seq<char> {
    "No symbol at cursor position. Using nearest symbol '"@ + name + "' instead."@
}

/// The metadata of an AI context: the tokens used, the query time, and,
/// where the nearest symbol `name` stood in, a flag and a note saying so.
pub fn context_metadata(total_tokens: usize, query_time: u64, used_fallback: bool, name: &str) -> (r: ContextMetadata)
    ensures
        r.total_tokens == total_tokens,
        r.query_time == query_time,
        r.used_fallback == (if used_fallback { Some(true) } else { None }),
        opt_str(r.fallback_message) == (if used_fallback { Some(cursor_fallback_note(name@)) } else { None }),
{
    let fallback_message = if used_fallback {
        let a = concat("No symbol at cursor position. Using nearest symbol '", name);
        Some(concat(a.as_str(), "' instead."))
    } else {
        None
    };
    ContextMetadata {
        total_tokens,
        query_time,
        used_fallback: if used_fallback {
            Some(true)
        } else {
            None
        },
        fallback_message,
    }
}

} // verus!
