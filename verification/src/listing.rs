//! Choosing which providers and plans a command works on.
use vstd::prelude::*;

use crate::api::{contains, contains_text, Plan, Provider};
use crate::text::{chars_of, lowercase, text_eq, to_lowercase};

verus! {

/// Whether a provider is listed: only top providers when `top` is set, and
/// only those whose operator, company or name contains the query, compared
/// in lower case, when there is a query.
pub open spec fn spec_provider_listed(p: Provider, top: bool, query: Option<Seq<char>>) -> bool {
    &&& (!top || p.is_top == 1)
    &&& match query {
        None => true,
        Some(q) => contains_text(lowercase(p.operator@), lowercase(q)) || contains_text(
            lowercase(p.company@),
            lowercase(q),
        ) || contains_text(lowercase(p.value@), lowercase(q)),
    }
}

/// The providers of `ps` that are listed, in their order.
pub open spec fn listed(ps: Seq<Provider>, top: bool, query: Option<Seq<char>>) -> Seq<Provider>
    decreases ps.len(),
{
    if ps.len() == 0 {
        Seq::empty()
    } else if spec_provider_listed(ps.last(), top, query) {
        listed(ps.drop_last(), top, query).push(ps.last())
    } else {
        listed(ps.drop_last(), top, query)
    }
}

/// Every provider the listing keeps is one of the input's, and the
/// listing keeps each provider of the input that passes the filter.
proof fn lemma_listed_members(ps: Seq<Provider>, top: bool, query: Option<Seq<char>>)
    ensures
        forall|x: Provider| #[trigger] listed(ps, top, query).contains(x) ==> ps.contains(x)
            && spec_provider_listed(x, top, query),
        forall|i: int| 0 <= i < ps.len() && spec_provider_listed(ps[i], top, query) ==> #[trigger] listed(
            ps,
            top,
            query,
        ).contains(ps[i]),
    decreases ps.len(),
{
    if ps.len() > 0 {
        let init = ps.drop_last();
        lemma_listed_members(init, top, query);
        let l = listed(ps, top, query);
        let li = listed(init, top, query);
        assert forall|x: Provider| #[trigger] l.contains(x) implies ps.contains(x) && spec_provider_listed(
            x,
            top,
            query,
        ) by {
            let k = choose|k: int| 0 <= k < l.len() && l[k] == x;
            if spec_provider_listed(ps.last(), top, query) && k == li.len() {
                assert(ps[ps.len() - 1] == x);
            } else {
                assert(li[k] == x);
                assert(li.contains(x));
                let j = choose|j: int| 0 <= j < init.len() && init[j] == x;
                assert(ps[j] == x);
            }
        }
        assert forall|i: int| 0 <= i < ps.len() && spec_provider_listed(ps[i], top, query) implies #[trigger] l.contains(
            ps[i],
        ) by {
            if i == ps.len() - 1 {
                assert(l[l.len() - 1] == ps[i]);
            } else {
                assert(init[i] == ps[i]);
                assert(li.contains(init[i]));
                let k = choose|k: int| 0 <= k < li.len() && li[k] == init[i];
                assert(l[k] == li[k]);
            }
        }
    }
}

/// Whether `p` passes the top filter and a search for `q` by any of its
/// three names, ignoring case.
pub open spec fn found_by_search(p: Provider, top: bool, q: Seq<char>) -> bool {
    (!top || p.is_top == 1) && (contains_text(lowercase(p.operator@), lowercase(q)) || contains_text(
        lowercase(p.company@),
        lowercase(q),
    ) || contains_text(lowercase(p.value@), lowercase(q)))
}

/// The listing for a search is the input with exactly the providers found
/// by it kept, in their order; without a search it keeps exactly the top
/// providers when asked for them, and all providers otherwise.
pub proof fn law_listing_keeps_what_the_search_finds(ps: Seq<Provider>, top: bool, q: Seq<char>)
    ensures
        listed(ps, top, Some(q)) == ps.filter(|p: Provider| found_by_search(p, top, q)),
        listed(ps, top, None) == ps.filter(|p: Provider| !top || p.is_top == 1),
        listed(ps, false, None) == ps,
    decreases ps.len(),
{
    reveal(Seq::filter);
    if ps.len() > 0 {
        law_listing_keeps_what_the_search_finds(ps.drop_last(), top, q);
        if listed(ps.drop_last(), false, None) == ps.drop_last() {
            assert(ps.drop_last().push(ps.last()) =~= ps);
        }
    }
}

/// A search finds a provider by any of its three names: one whose operator,
/// company or name contains the query, ignoring case, is listed unless the
/// top filter excludes it; without a query and without the top filter every
/// provider is listed. Nothing is listed that the input lacks, that the top
/// filter excludes, or that matches the query by none of its names.
pub proof fn law_search_matches_every_name(ps: Seq<Provider>, top: bool, q: Seq<char>, i: int)
    requires
        0 <= i < ps.len(),
    ensures
        (!top || ps[i].is_top == 1) && (contains_text(lowercase(ps[i].operator@), lowercase(q))
            || contains_text(lowercase(ps[i].company@), lowercase(q)) || contains_text(
            lowercase(ps[i].value@),
            lowercase(q),
        )) ==> listed(ps, top, Some(q)).contains(ps[i]),
        listed(ps, false, None).contains(ps[i]),
        listed(ps, top, Some(q)).contains(ps[i]) ==> (!top || ps[i].is_top == 1) && (contains_text(
            lowercase(ps[i].operator@),
            lowercase(q),
        ) || contains_text(lowercase(ps[i].company@), lowercase(q)) || contains_text(
            lowercase(ps[i].value@),
            lowercase(q),
        )),
{
    lemma_listed_members(ps, top, Some(q));
    lemma_listed_members(ps, false, None);
}

fn lower_contains(field: &String, q_lower: &Vec<char>) -> (r: bool)
    ensures
        r == contains_text(lowercase(field@), q_lower@),
{
    let f = to_lowercase(field.as_str());
    contains(&chars_of(f.as_str()), q_lower)
}

/// Whether one provider is listed.
pub fn provider_listed(p: &Provider, top: bool, query: Option<&str>) -> (r: bool)
    ensures
        r == spec_provider_listed(*p, top, match query {
            Some(q) => Some(q@),
            None => None,
        }),
{
    if top && p.is_top != 1 {
        return false;
    }
    match query {
        None => true,
        Some(q) => {
            let ql = to_lowercase(q);
            let qc = chars_of(ql.as_str());
            lower_contains(&p.operator, &qc) || lower_contains(&p.company, &qc) || lower_contains(
                &p.value,
                &qc,
            )
        },
    }
}

/// The providers to list, in their order: with `top`, only top providers;
/// with a query, only those whose operator, company or name contains it,
/// ignoring case.
pub fn filter_providers(providers: Vec<Provider>, top: bool, query: Option<&str>) -> (r: Vec<
    Provider,
>)
    ensures
        r@ == listed(providers@, top, match query {
            Some(q) => Some(q@),
            None => None,
        }),
{
    let ghost q = match query {
        Some(q) => Some(q@),
        None => None,
    };
    let ghost all = providers@;
    let mut rest = providers;
    let mut kept_rev: Vec<Provider> = Vec::new();
    // Walk from the back, keeping listed providers in reverse order.
    while rest.len() > 0
        invariant
            rest@ == all.take(rest@.len() as int),
            rest@.len() <= all.len(),
            q == match query {
                Some(q) => Some(q@),
                None => None,
            },
            listed(all, top, q) == listed(rest@, top, q) + kept_rev@.reverse(),
        decreases rest.len(),
    {
        let ghost before = rest@;
        let p = rest.pop().unwrap();
        proof {
            assert(before.drop_last() =~= rest@);
            assert(before.last() == p);
            assert(all.take(rest@.len() as int) =~= before.take(rest@.len() as int));
        }
        if provider_listed(&p, top, query) {
            let ghost kr = kept_rev@;
            kept_rev.push(p);
            proof {
                assert(kept_rev@.reverse() =~= seq![p] + kr.reverse());
                assert(listed(before, top, q) == listed(rest@, top, q).push(p));
                assert(listed(rest@, top, q).push(p) + kr.reverse() =~= listed(rest@, top, q)
                    + kept_rev@.reverse());
            }
        } else {
            proof {
                assert(listed(before, top, q) == listed(rest@, top, q));
            }
        }
    }
    proof {
        assert(rest@ =~= Seq::<Provider>::empty());
        assert(listed(rest@, top, q) =~= Seq::<Provider>::empty());
        assert(listed(all, top, q) =~= kept_rev@.reverse());
    }
    let mut out: Vec<Provider> = Vec::new();
    let ghost target = kept_rev@.reverse();
    while kept_rev.len() > 0
        invariant
            target == out@ + kept_rev@.reverse(),
        decreases kept_rev.len(),
    {
        let ghost before = kept_rev@;
        let p = kept_rev.pop().unwrap();
        out.push(p);
        proof {
            assert(before.reverse() =~= seq![p] + kept_rev@.reverse());
            assert(out@ + kept_rev@.reverse() =~= out@.drop_last() + before.reverse());
        }
    }
    proof {
        assert(out@ =~= target);
    }
    out
}

/// Why no plan could be chosen.
#[derive(Debug, Clone, Copy, PartialEq, Eq)]
pub enum PlanChoiceError {
    /// The provider has no plans.
    NoPlans,
    /// None of the provider's plans has the requested identifier.
    PlanNotFound,
}

/// The positions `i < n` whose plan has identifier `id`, in order.
pub open spec fn positions_with_id(plans: Seq<Plan>, id: Seq<char>, n: int) -> Seq<usize>
    decreases n,
{
    if n <= 0 {
        Seq::empty()
    } else if plans[n - 1].plan_id.0@ == id {
        positions_with_id(plans, id, n - 1).push((n - 1) as usize)
    } else {
        positions_with_id(plans, id, n - 1)
    }
}

/// The positions `0..n`.
pub open spec fn all_positions(n: int) -> Seq<usize> {
    Seq::new(n as nat, |i: int| i as usize)
}

/// Chooses the plans to compare against: the ones with the requested
/// identifier, or all of them when none is requested. Gives their positions
/// in `plans`, in order.
pub fn choose_plans(plans: &Vec<Plan>, plan_id: Option<&str>) -> (r: Result<Vec<usize>, PlanChoiceError>)
    ensures
        plans@.len() == 0 ==> r == Err::<Vec<usize>, PlanChoiceError>(PlanChoiceError::NoPlans),
        plans@.len() > 0 ==> match plan_id {
            None => r matches Ok(v) && v@ == all_positions(plans@.len() as int),
            Some(id) => {
                let found = positions_with_id(plans@, id@, plans@.len() as int);
                if found.len() == 0 {
                    r == Err::<Vec<usize>, PlanChoiceError>(PlanChoiceError::PlanNotFound)
                } else {
                    r matches Ok(v) && v@ == found
                }
            },
        },
{
    if plans.len() == 0 {
        return Err(PlanChoiceError::NoPlans);
    }
    let mut out: Vec<usize> = Vec::new();
    let mut i: usize = 0;
    match plan_id {
        None => {
            while i < plans.len()
                invariant
                    i <= plans.len(),
                    out@ == all_positions(i as int),
                decreases plans.len() - i,
            {
                out.push(i);
                assert(out@ =~= all_positions(i + 1));
                i = i + 1;
            }
            Ok(out)
        },
        Some(id) => {
            while i < plans.len()
                invariant
                    i <= plans.len(),
                    out@ == positions_with_id(plans@, id@, i as int),
                decreases plans.len() - i,
            {
                if text_eq(&plans[i].plan_id.0, id) {
                    out.push(i);
                }
                i = i + 1;
            }
            if out.len() == 0 {
                Err(PlanChoiceError::PlanNotFound)
            } else {
                Ok(out)
            }
        },
    }
}

/// The first plan with identifier `id`, if any.
pub fn find_plan(plans: &Vec<Plan>, id: &str) -> (r: Option<usize>)
    ensures
        match r {
            Some(i) => i < plans@.len() && plans@[i as int].plan_id.0@ == id@ && forall|j: int|
                0 <= j < i ==> plans@[j].plan_id.0@ != id@,
            None => forall|j: int| 0 <= j < plans@.len() ==> plans@[j].plan_id.0@ != id@,
        },
{
    let mut i: usize = 0;
    while i < plans.len()
        invariant
            i <= plans.len(),
            forall|j: int| 0 <= j < i ==> plans@[j].plan_id.0@ != id@,
        decreases plans.len() - i,
    {
        if text_eq(&plans[i].plan_id.0, id) {
            return Some(i);
        }
        i = i + 1;
    }
    None
}

} // verus!
