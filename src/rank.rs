//! Ordering results for display: applications, then services, then bare
//! executables, each group in the order in which it was produced.
use vstd::prelude::*;

use crate::classify::{ApplicationType, ParsedApplication};

verus! {

/// The place of a type in the listing.
pub open spec fn rank(t: ApplicationType) -> int {
    match t {
        ApplicationType::Application => 0,
        ApplicationType::Service => 1,
        ApplicationType::Executable => 2,
    }
}

/// The items of `s` of type `t`, in order.
pub open spec fn of_type(s: Seq<ParsedApplication>, t: ApplicationType) -> Seq<ParsedApplication>
    decreases s.len(),
{
    if s.len() == 0 {
        Seq::empty()
    } else {
        let prev = of_type(s.drop_last(), t);
        if s.last().app_type == t {
            prev.push(s.last())
        } else {
            prev
        }
    }
}

/// `s` ordered by type, stably.
pub open spec fn ranked(s: Seq<ParsedApplication>) -> Seq<ParsedApplication> {
    of_type(s, ApplicationType::Application) + of_type(s, ApplicationType::Service) + of_type(
        s,
        ApplicationType::Executable,
    )
}

/// Every item of `of_type(s, t)` has type `t`.
pub proof fn lemma_of_type_types(s: Seq<ParsedApplication>, t: ApplicationType)
    ensures
        forall|i: int| 0 <= i < of_type(s, t).len() ==> #[trigger] of_type(s, t)[i].app_type == t,
    decreases s.len(),
{
    if s.len() > 0 {
        lemma_of_type_types(s.drop_last(), t);
    }
}

/// Selecting by type distributes over concatenation.
pub proof fn lemma_of_type_append(a: Seq<ParsedApplication>, b: Seq<ParsedApplication>, t: ApplicationType)
    ensures
        of_type(a + b, t) == of_type(a, t) + of_type(b, t),
    decreases b.len(),
{
    if b.len() == 0 {
        assert(a + b =~= a);
        assert(of_type(a, t) + of_type(b, t) =~= of_type(a, t));
    } else {
        lemma_of_type_append(a, b.drop_last(), t);
        assert((a + b).drop_last() =~= a + b.drop_last());
        assert((a + b).last() == b.last());
        if b.last().app_type == t {
            assert(of_type(a, t) + of_type(b.drop_last(), t).push(b.last()) =~= (of_type(a, t)
                + of_type(b.drop_last(), t)).push(b.last()));
        }
    }
}

/// Selecting type `t` from items all of type `u` keeps them all where `t`
/// is `u`, and none otherwise.
pub proof fn lemma_of_type_uniform(s: Seq<ParsedApplication>, u: ApplicationType, t: ApplicationType)
    requires
        forall|i: int| 0 <= i < s.len() ==> #[trigger] s[i].app_type == u,
    ensures
        of_type(s, t) == (if t == u {
            s
        } else {
            Seq::empty()
        }),
    decreases s.len(),
{
    if s.len() > 0 {
        lemma_of_type_uniform(s.drop_last(), u, t);
        assert(s.drop_last().push(s.last()) =~= s);
    }
}

/// Ordering is stable and complete: of each type, the ordered items are
/// exactly the items of that type in their input order; and every
/// application comes before every service, which comes before every
/// executable.
pub proof fn lemma_ranked_stable_sorted(s: Seq<ParsedApplication>)
    ensures
        forall|t: ApplicationType| #[trigger] of_type(ranked(s), t) == of_type(s, t),
        forall|i: int, j: int|
            0 <= i < j < ranked(s).len() ==> rank(#[trigger] ranked(s)[i].app_type) <= rank(
                #[trigger] ranked(s)[j].app_type,
            ),
{
    let a = of_type(s, ApplicationType::Application);
    let v = of_type(s, ApplicationType::Service);
    let e = of_type(s, ApplicationType::Executable);
    lemma_of_type_types(s, ApplicationType::Application);
    lemma_of_type_types(s, ApplicationType::Service);
    lemma_of_type_types(s, ApplicationType::Executable);
    assert forall|t: ApplicationType| #[trigger] of_type(ranked(s), t) == of_type(s, t) by {
        lemma_of_type_append(a + v, e, t);
        lemma_of_type_append(a, v, t);
        lemma_of_type_uniform(a, ApplicationType::Application, t);
        lemma_of_type_uniform(v, ApplicationType::Service, t);
        lemma_of_type_uniform(e, ApplicationType::Executable, t);
        if t == ApplicationType::Application {
            assert(a + Seq::empty() + Seq::empty() =~= a);
        } else if t == ApplicationType::Service {
            assert(Seq::empty() + v + Seq::empty() =~= v);
        } else {
            assert(Seq::<ParsedApplication>::empty() + Seq::empty() + e =~= e);
        }
    }
    let r = ranked(s);
    assert forall|i: int| 0 <= i < r.len() implies rank(#[trigger] r[i].app_type) == (if i
        < a.len() {
        0int
    } else if i < a.len() + v.len() {
        1int
    } else {
        2int
    }) by {
        if i < a.len() {
            assert(r[i] == a[i]);
        } else if i < a.len() + v.len() {
            assert(r[i] == v[i - a.len()]);
        } else {
            assert(r[i] == e[i - a.len() - v.len()]);
        }
    }
}

/// Orders `items` by type: applications, then services, then executables,
/// each group in input order.
pub fn sort_by_type(items: Vec<ParsedApplication>) -> (r: Vec<ParsedApplication>)
    ensures
        r@ == ranked(items@),
{
    let ghost s = items@;
    let mut rest = items;
    let mut apps: Vec<ParsedApplication> = Vec::new();
    let mut services: Vec<ParsedApplication> = Vec::new();
    let mut executables: Vec<ParsedApplication> = Vec::new();
    let ghost mut i: int = 0;
    while rest.len() > 0
        invariant
            0 <= i <= s.len(),
            rest@ == s.subrange(i, s.len() as int),
            apps@ == of_type(s.take(i), ApplicationType::Application),
            services@ == of_type(s.take(i), ApplicationType::Service),
            executables@ == of_type(s.take(i), ApplicationType::Executable),
        decreases rest.len(),
    {
        let item = rest.remove(0);
        assert(s.take(i + 1).drop_last() =~= s.take(i));
        assert(s.take(i + 1).last() == item);
        match item.app_type {
            ApplicationType::Application => apps.push(item),
            ApplicationType::Service => services.push(item),
            ApplicationType::Executable => executables.push(item),
        }
        proof {
            i = i + 1;
        }
        assert(rest@ =~= s.subrange(i, s.len() as int));
    }
    assert(s.take(i) =~= s);
    apps.append(&mut services);
    apps.append(&mut executables);
    apps
}

} // verus!
