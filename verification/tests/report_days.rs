use bbm::report_days::{campaign_days, group_days};

#[test]
fn days_are_grouped_in_order() {
    let g = group_days(&vec![Some(5), Some(3), None, Some(5), Some(3), Some(9)]);
    let view: Vec<(i32, Vec<usize>)> = g.into_iter().map(|d| (d.day, d.members)).collect();
    assert_eq!(view, vec![(3, vec![1, 4]), (5, vec![0, 3]), (9, vec![5])]);
    assert!(group_days(&vec![None, None]).is_empty());
}

#[test]
fn record_and_report() {
    let ts = vec![
        String::from("2026-07-20T09:56:55.000Z"),
        String::from("2026-07-20T15:00:00.000Z"),
    ];
    let days = campaign_days(&ts);
    assert_eq!(days.len(), 1);
    assert_eq!(days[0].date, "2026-07-20");
    assert_eq!(days[0].members, vec![0, 1]);
}

#[test]
fn dates_are_local_to_the_timestamp() {
    let ts = vec![
        String::from("2026-07-21T00:30:00+02:00"),
        String::from("2026-07-20T23:00:00Z"),
        String::from("garbage"),
        String::from("2026-07-19T12:00:00Z"),
    ];
    let days = campaign_days(&ts);
    let view: Vec<(String, Vec<usize>)> = days.into_iter().map(|d| (d.date, d.members)).collect();
    assert_eq!(
        view,
        vec![
            (String::from("2026-07-19"), vec![3]),
            (String::from("2026-07-20"), vec![1]),
            (String::from("2026-07-21"), vec![0]),
        ]
    );
}

#[test]
fn each_readable_measurement_is_under_exactly_one_day() {
    // The law: the days partition the measurements whose timestamp reads.
    let days = vec![Some(2), None, Some(1), Some(2), Some(1), None, Some(7)];
    let groups = group_days(&days);
    for (i, d) in days.iter().enumerate() {
        let under: Vec<i32> = groups.iter().filter(|g| g.members.contains(&i)).map(|g| g.day).collect();
        match d {
            Some(day) => assert_eq!(under, vec![*day]),
            None => assert!(under.is_empty()),
        }
    }
    let total: usize = groups.iter().map(|g| g.members.len()).sum();
    assert_eq!(total, 5);
}
