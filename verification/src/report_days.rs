//! The calendar days of a campaign's measurements, which its report
//! summarises one by one.
use vstd::prelude::*;

verus! {

/// The calendar date an RFC 3339 text falls on in its own offset, as chrono
/// reads it: the day number counted from 1 January of year 1 (day 1), and
/// the date written `YYYY-MM-DD`; `None` for text that is not RFC 3339.
pub uninterp spec fn rfc3339_local_date(text: Seq<char>) -> Option<(i32, Seq<char>)>;

/// Reads an RFC 3339 timestamp with `chrono::DateTime::parse_from_rfc3339`
/// and takes its local date (`date_naive`), giving the date's
/// `num_days_from_ce` and its `to_string`.
#[verifier::external_body]
pub(crate) fn local_date(text: &str) -> (r: Option<(i32, String)>)
    ensures
        match r {
            Some((d, s)) => rfc3339_local_date(text@) == Some((d, s@)),
            None => rfc3339_local_date(text@) is None,
        },
{
    match chrono::DateTime::parse_from_rfc3339(text) {
        Ok(t) => Some((chrono::Datelike::num_days_from_ce(&t.date_naive()), t.date_naive().to_string())),
        Err(_) => None,
    }
}

/// The measurements of one calendar day, by their positions.
#[derive(Debug)]
pub struct DayGroup {
    pub day: i32,
    pub members: Vec<usize>,
}

/// The positions below `n`, in order, whose day is `d`.
pub open spec fn members_on(days: Seq<Option<i32>>, d: i32, n: int) -> Seq<int>
    decreases n,
{
    if n <= 0 {
        Seq::empty()
    } else {
        let p = members_on(days, d, n - 1);
        if days[n - 1] == Some(d) {
            p.push(n - 1)
        } else {
            p
        }
    }
}

/// Some position falls on day `d`.
pub open spec fn has_day(days: Seq<Option<i32>>, d: i32) -> bool {
    exists|i: int| 0 <= i < days.len() && days[i] == Some(d)
}

/// Some group is for day `d`.
pub open spec fn has_group(groups: Seq<(i32, Seq<int>)>, d: i32) -> bool {
    exists|k: int| 0 <= k < groups.len() && groups[k].0 == d
}

/// Positions as integers.
pub open spec fn positions(v: Seq<usize>) -> Seq<int> {
    v.map_values(|x: usize| x as int)
}

/// `groups` lists the distinct days of `days` in increasing order, each
/// with the positions, in order, that fall on it; positions without a day
/// belong to no group.
pub open spec fn is_day_grouping(days: Seq<Option<i32>>, groups: Seq<(i32, Seq<int>)>) -> bool {
    &&& forall|a: int, b: int| 0 <= a < b < groups.len() ==> groups[a].0 < groups[b].0
    &&& forall|k: int| 0 <= k < groups.len() ==> has_day(days, #[trigger] groups[k].0)
    &&& forall|i: int| 0 <= i < days.len() && #[trigger] days[i] is Some ==> has_group(groups, days[i]->0)
    &&& forall|k: int|
        #![trigger groups[k]]
        0 <= k < groups.len() ==> groups[k].1 == members_on(days, groups[k].0, days.len() as int)
}

/// The groups as plain values.
pub open spec fn group_view(g: Seq<DayGroup>) -> Seq<(i32, Seq<int>)> {
    g.map_values(|x: DayGroup| (x.day, positions(x.members@)))
}

spec fn strictly_sorted(s: Seq<i32>) -> bool {
    forall|a: int, b: int| 0 <= a < b < s.len() ==> s[a] < s[b]
}

/// The distinct days, in increasing order.
fn distinct_days(days: &Vec<Option<i32>>) -> (ds: Vec<i32>)
    ensures
        strictly_sorted(ds@),
        forall|a: int| 0 <= a < ds.len() ==> has_day(days@, #[trigger] ds@[a]),
        forall|i: int| 0 <= i < days.len() && #[trigger] days@[i] is Some ==> ds@.contains(days@[i]->0),
{
    let mut ds: Vec<i32> = Vec::new();
    let ghost mut wit: Seq<int> = Seq::empty();
    let ghost mut pos: Seq<int> = Seq::empty();
    let mut i: usize = 0;
    while i < days.len()
        invariant
            i <= days.len(),
            strictly_sorted(ds@),
            wit.len() == ds.len(),
            forall|a: int| 0 <= a < ds.len() ==> 0 <= #[trigger] wit[a] < i && days@[wit[a]] == Some(ds@[a]),
            pos.len() == i,
            forall|j: int|
                0 <= j < i && #[trigger] days@[j] is Some ==> 0 <= pos[j] < ds.len() && Some(ds@[pos[j]]) == days@[j],
        decreases days.len() - i,
    {
        match days[i] {
            Some(d) => {
                let mut p: usize = 0;
                while p < ds.len() && ds[p] < d
                    invariant
                        p <= ds.len(),
                        forall|a: int| 0 <= a < p ==> ds@[a] < d,
                    decreases ds.len() - p,
                {
                    p = p + 1;
                }
                if p < ds.len() && ds[p] == d {
                    proof {
                        pos = pos.push(p as int);
                    }
                } else {
                    let ghost old_ds = ds@;
                    let ghost old_pos = pos;
                    let ghost old_wit = wit;
                    ds.insert(p, d);
                    proof {
                        old_ds.insert_ensures(p as int, d);
                        old_wit.insert_ensures(p as int, i as int);
                        wit = old_wit.insert(p as int, i as int);
                        pos = Seq::new(
                            (i + 1) as nat,
                            |j: int|
                                if j == i {
                                    p as int
                                } else if old_pos[j] >= p {
                                    old_pos[j] + 1
                                } else {
                                    old_pos[j]
                                },
                        );
                        assert forall|a: int, b: int| 0 <= a < b < ds@.len() implies ds@[a] < ds@[b] by {
                            if b < p {
                            } else if b == p {
                            } else if a < p {
                                assert(ds@[b] == old_ds[b - 1]);
                            } else if a == p {
                                assert(ds@[b] == old_ds[b - 1]);
                            } else {
                                assert(ds@[a] == old_ds[a - 1]);
                                assert(ds@[b] == old_ds[b - 1]);
                            }
                        }
                        assert forall|a: int| 0 <= a < ds.len() implies 0 <= #[trigger] wit[a] < i + 1
                            && days@[wit[a]] == Some(ds@[a]) by {
                            if a < p {
                            } else if a == p {
                            } else {
                                assert(wit[a] == old_wit[a - 1]);
                                assert(ds@[a] == old_ds[a - 1]);
                            }
                        }
                        assert forall|j: int| 0 <= j < i + 1 && #[trigger] days@[j] is Some implies 0 <= pos[j]
                            < ds.len() && Some(ds@[pos[j]]) == days@[j] by {
                            if j < i {
                                if old_pos[j] >= p {
                                    assert(ds@[old_pos[j] + 1] == old_ds[old_pos[j]]);
                                }
                            }
                        }
                    }
                }
            },
            None => {
                proof {
                    pos = pos.push(0);
                }
            },
        }
        i = i + 1;
    }
    proof {
        assert forall|a: int| 0 <= a < ds.len() implies has_day(days@, #[trigger] ds@[a]) by {
            let j = wit[a];
            assert(days@[j] == Some(ds@[a]));
        }
        assert forall|i: int| 0 <= i < days.len() && #[trigger] days@[i] is Some implies ds@.contains(
            days@[i]->0,
        ) by {
            assert(Some(ds@[pos[i]]) == days@[i]);
        }
    }
    ds
}

/// The positions, in order, whose day is `d`.
fn members_of(days: &Vec<Option<i32>>, d: i32) -> (m: Vec<usize>)
    ensures
        positions(m@) == members_on(days@, d, days.len() as int),
{
    let mut m: Vec<usize> = Vec::new();
    let mut j: usize = 0;
    while j < days.len()
        invariant
            j <= days.len(),
            positions(m@) == members_on(days@, d, j as int),
        decreases days.len() - j,
    {
        if days[j] == Some(d) {
            let ghost prev = m@;
            m.push(j);
            assert(positions(m@) =~= positions(prev).push(j as int)) by {
                broadcast use vstd::seq_lib::group_seq_properties;
            }
        }
        j = j + 1;
    }
    m
}

/// Groups positions by day: the distinct days in increasing order, each
/// with the positions that fall on it.
pub fn group_days(days: &Vec<Option<i32>>) -> (g: Vec<DayGroup>)
    ensures
        is_day_grouping(days@, group_view(g@)),
{
    let ds = distinct_days(days);
    let mut g: Vec<DayGroup> = Vec::new();
    let mut k: usize = 0;
    while k < ds.len()
        invariant
            k <= ds.len(),
            g.len() == k,
            forall|a: int| 0 <= a < k ==> (#[trigger] g@[a]).day == ds@[a],
            forall|a: int|
                0 <= a < k ==> positions((#[trigger] g@[a]).members@) == members_on(days@, ds@[a], days.len() as int),
        decreases ds.len() - k,
    {
        let members = members_of(days, ds[k]);
        g.push(DayGroup { day: ds[k], members });
        k = k + 1;
    }
    proof {
        let v = group_view(g@);
        assert(v.len() == ds.len());
        assert forall|k: int| #![trigger v[k]] 0 <= k < v.len() implies v[k].0 == ds@[k] && v[k].1
            == members_on(days@, ds@[k], days.len() as int) by {
            assert(v[k] == (g@[k].day, positions(g@[k].members@)));
        }
        assert forall|k: int| 0 <= k < v.len() implies has_day(days@, #[trigger] v[k].0) by {
            assert(v[k].0 == ds@[k]);
        }
        assert forall|i: int| 0 <= i < days.len() && #[trigger] days@[i] is Some implies has_group(
            v,
            days@[i]->0,
        ) by {
            let a = ds@.index_of(days@[i]->0);
            assert(v[a].0 == ds@[a]);
        }
    }
    g
}

proof fn lemma_members_on(days: Seq<Option<i32>>, d: i32, n: int)
    requires
        0 <= n <= days.len(),
    ensures
        forall|x: int| 0 <= x < members_on(days, d, n).len() ==> 0 <= #[trigger] members_on(days, d, n)[x] < n
            && days[members_on(days, d, n)[x]] == Some(d),
        (exists|i: int| 0 <= i < n && days[i] == Some(d)) ==> members_on(days, d, n).len() > 0,
    decreases n,
{
    if n > 0 {
        lemma_members_on(days, d, n - 1);
        if days[n - 1] != Some(d) && exists|i: int| 0 <= i < n && days[i] == Some(d) {
            let i = choose|i: int| 0 <= i < n && days[i] == Some(d);
            assert(i < n - 1);
        }
    }
}

proof fn lemma_members_on_contains(days: Seq<Option<i32>>, d: i32, n: int, x: int)
    requires
        0 <= n <= days.len(),
    ensures
        members_on(days, d, n).contains(x) <==> (0 <= x < n && days[x] == Some(d)),
    decreases n,
{
    if n > 0 {
        lemma_members_on_contains(days, d, n - 1, x);
        let p = members_on(days, d, n - 1);
        if days[n - 1] == Some(d) {
            let q = p.push(n - 1);
            if q.contains(x) {
                let j = choose|j: int| 0 <= j < q.len() && #[trigger] q[j] == x;
                if j < p.len() {
                    assert(p[j] == x);
                }
            }
            if p.contains(x) {
                let j = choose|j: int| 0 <= j < p.len() && #[trigger] p[j] == x;
                assert(q[j] == x);
            }
            if x == n - 1 {
                assert(q[p.len() as int] == x);
            }
        }
    }
}

/// The days partition the measurements that have one: a measurement is
/// listed under a day exactly when it falls on that day, so each readable
/// measurement is under exactly one day and the others under none.
pub proof fn law_days_partition_measurements(days: Seq<Option<i32>>, groups: Seq<(i32, Seq<int>)>)
    requires
        is_day_grouping(days, groups),
    ensures
        forall|i: int, k: int|
            0 <= i < days.len() && 0 <= k < groups.len() ==> (#[trigger] groups[k].1.contains(i) <==> days[i]
                == Some(groups[k].0)),
        forall|i: int, k1: int, k2: int|
            0 <= k1 < groups.len() && 0 <= k2 < groups.len() && #[trigger] groups[k1].1.contains(i)
                && #[trigger] groups[k2].1.contains(i) ==> k1 == k2,
        forall|i: int|
            0 <= i < days.len() && #[trigger] days[i] is Some ==> exists|k: int|
                0 <= k < groups.len() && groups[k].1.contains(i),
{
    assert forall|i: int, k: int| 0 <= i < days.len() && 0 <= k < groups.len() implies (
    #[trigger] groups[k].1.contains(i) <==> days[i] == Some(groups[k].0)) by {
        assert(groups[k].1 == members_on(days, groups[k].0, days.len() as int));
        lemma_members_on_contains(days, groups[k].0, days.len() as int, i);
    }
    assert forall|i: int, k1: int, k2: int|
        0 <= k1 < groups.len() && 0 <= k2 < groups.len() && #[trigger] groups[k1].1.contains(i)
            && #[trigger] groups[k2].1.contains(i) implies k1 == k2 by {
        assert(groups[k1].1 == members_on(days, groups[k1].0, days.len() as int));
        assert(groups[k2].1 == members_on(days, groups[k2].0, days.len() as int));
        lemma_members_on_contains(days, groups[k1].0, days.len() as int, i);
        lemma_members_on_contains(days, groups[k2].0, days.len() as int, i);
        if k1 < k2 {
            assert(groups[k1].0 < groups[k2].0);
        } else if k2 < k1 {
            assert(groups[k2].0 < groups[k1].0);
        }
    }
    assert forall|i: int| 0 <= i < days.len() && #[trigger] days[i] is Some implies exists|k: int|
        0 <= k < groups.len() && groups[k].1.contains(i) by {
        assert(has_group(groups, days[i]->0));
        let k = choose|k: int| 0 <= k < groups.len() && groups[k].0 == days[i]->0;
        assert(groups[k].1 == members_on(days, groups[k].0, days.len() as int));
        lemma_members_on_contains(days, groups[k].0, days.len() as int, i);
    }
}

/// One calendar day of a campaign: its day number, its date as the report
/// prints it, and the positions of its measurements.
#[derive(Debug)]
pub struct CampaignDay {
    pub day: i32,
    pub date: String,
    pub members: Vec<usize>,
}

/// The local day of each timestamp, where it can be read.
pub open spec fn local_days(ts: Seq<String>) -> Seq<Option<i32>> {
    ts.map_values(
        |t: String|
            match rfc3339_local_date(t@) {
                Some(p) => Some(p.0),
                None => None,
            },
    )
}

/// The days as plain values.
pub open spec fn day_view(g: Seq<CampaignDay>) -> Seq<(i32, Seq<int>)> {
    g.map_values(|x: CampaignDay| (x.day, positions(x.members@)))
}

/// The calendar days of a campaign's measurements, given their timestamps
/// in order: the distinct local dates in increasing order, each with the
/// measurements taken on it; a timestamp that cannot be read counts for no
/// day. Each day's printed date is that of its first measurement.
pub fn campaign_days(timestamps: &Vec<String>) -> (r: Vec<CampaignDay>)
    ensures
        is_day_grouping(local_days(timestamps@), day_view(r@)),
        forall|k: int|
            0 <= k < r.len() ==> (#[trigger] r@[k]).members.len() > 0 && rfc3339_local_date(
                timestamps@[r@[k].members@[0] as int]@,
            ) == Some((r@[k].day, r@[k].date@)),
{
    let mut dates: Vec<Option<(i32, String)>> = Vec::new();
    let mut days: Vec<Option<i32>> = Vec::new();
    let mut i: usize = 0;
    while i < timestamps.len()
        invariant
            i <= timestamps.len(),
            dates.len() == i,
            days.len() == i,
            forall|j: int| 0 <= j < i ==> #[trigger] days@[j] == local_days(timestamps@)[j],
            forall|j: int|
                0 <= j < i ==> match #[trigger] dates@[j] {
                    Some((d, s)) => rfc3339_local_date(timestamps@[j]@) == Some((d, s@)),
                    None => rfc3339_local_date(timestamps@[j]@) is None,
                },
        decreases timestamps.len() - i,
    {
        let found = local_date(timestamps[i].as_str());
        match &found {
            Some((d, _)) => days.push(Some(*d)),
            None => days.push(None),
        }
        dates.push(found);
        i = i + 1;
    }
    assert(days@ =~= local_days(timestamps@));
    let groups = group_days(&days);
    let mut r: Vec<CampaignDay> = Vec::new();
    let mut k: usize = 0;
    while k < groups.len()
        invariant
            k <= groups.len(),
            r.len() == k,
            days@ == local_days(timestamps@),
            dates.len() == days.len(),
            days.len() == timestamps.len(),
            is_day_grouping(days@, group_view(groups@)),
            forall|j: int|
                0 <= j < days.len() ==> match #[trigger] dates@[j] {
                    Some((d, s)) => rfc3339_local_date(timestamps@[j]@) == Some((d, s@)),
                    None => rfc3339_local_date(timestamps@[j]@) is None,
                },
            forall|a: int|
                0 <= a < k ==> (#[trigger] r@[a]).day == groups@[a].day && r@[a].members@ == groups@[a].members@
                    && r@[a].members.len() > 0 && rfc3339_local_date(
                    timestamps@[r@[a].members@[0] as int]@,
                ) == Some((r@[a].day, r@[a].date@)),
        decreases groups.len() - k,
    {
        let ghost gv = group_view(groups@);
        assert(gv[k as int] == (groups@[k as int].day, positions(groups@[k as int].members@)));
        proof {
            lemma_members_on(days@, groups@[k as int].day, days.len() as int);
            assert(has_day(days@, gv[k as int].0));
        }
        let first = groups[k].members[0];
        assert(positions(groups@[k as int].members@)[0] == first as int);
        let date = match &dates[first] {
            Some((_, s)) => s.clone(),
            None => String::new(),
        };
        proof {
            assert(days@[first as int] == Some(groups@[k as int].day));
        }
        r.push(CampaignDay { day: groups[k].day, date, members: groups[k].members.clone() });
        k = k + 1;
    }
    proof {
        assert(day_view(r@) =~= group_view(groups@));
    }
    r
}

} // verus!
