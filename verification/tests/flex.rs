use tui_layout::cache::LayoutCache;
use tui_layout::{Constraint, Direction, Flex, Layout, Rect};

fn split(layout: &Layout, area: Rect) -> Vec<Rect> {
    let mut cache = LayoutCache::new();
    layout.split(area, &mut cache).expect("failed to split")
}

fn split_with_spacers(layout: &Layout, area: Rect) -> (Vec<Rect>, Vec<Rect>) {
    let mut cache = LayoutCache::new();
    layout
        .split_with_spacers(area, &mut cache)
        .expect("failed to split")
}

fn widths(rects: &[Rect]) -> Vec<u16> {
    rects.iter().map(|r| r.width).collect()
}

fn cells(rects: &[Rect]) -> Vec<(u16, u16)> {
    rects.iter().map(|r| (r.x, r.width)).collect()
}

#[test]
fn vertical_split_by_height() {
    let target = Rect {
        x: 2,
        y: 2,
        width: 10,
        height: 10,
    };

    let chunks = split(
        &Layout::default()
            .direction(Direction::Vertical)
            .constraints(vec![
                Constraint::Percentage(10),
                Constraint::Max(5),
                Constraint::Min(1),
            ]),
        target,
    );

    assert_eq!(target.height, chunks.iter().map(|r| r.height).sum::<u16>());
    chunks.windows(2).for_each(|w| assert!(w[0].y <= w[1].y));
}

#[test]
fn edge_cases() {
    // stretches into last
    let layout = split(
        &Layout::default().constraints(vec![
            Constraint::Percentage(50),
            Constraint::Percentage(50),
            Constraint::Min(0),
        ]),
        Rect::new(0, 0, 1, 1),
    );
    assert_eq!(
        layout[..],
        [
            Rect::new(0, 0, 1, 1),
            Rect::new(0, 1, 1, 0),
            Rect::new(0, 1, 1, 0)
        ]
    );

    // stretches into last
    let layout = split(
        &Layout::default().constraints(vec![
            Constraint::Max(1),
            Constraint::Percentage(99),
            Constraint::Min(0),
        ]),
        Rect::new(0, 0, 1, 1),
    );
    assert_eq!(
        layout[..],
        [
            Rect::new(0, 0, 1, 0),
            Rect::new(0, 0, 1, 1),
            Rect::new(0, 1, 1, 0)
        ]
    );

    // a length of zero between two minimums
    let layout = split(
        &Layout::default()
            .constraints(vec![
                Constraint::Min(1),
                Constraint::Length(0),
                Constraint::Min(1),
            ])
            .direction(Direction::Horizontal),
        Rect::new(0, 0, 1, 1),
    );
    assert_eq!(
        layout[..],
        [
            Rect::new(0, 0, 1, 1),
            Rect::new(1, 0, 0, 1),
            Rect::new(1, 0, 0, 1),
        ]
    );

    // This stretches the 2nd last length instead of the last min based on ranking
    let layout = split(
        &Layout::default()
            .constraints(vec![
                Constraint::Length(3),
                Constraint::Min(4),
                Constraint::Length(1),
                Constraint::Min(4),
            ])
            .direction(Direction::Horizontal),
        Rect::new(0, 0, 7, 1),
    );
    assert_eq!(
        layout[..],
        [
            Rect::new(0, 0, 0, 1),
            Rect::new(0, 0, 4, 1),
            Rect::new(4, 0, 0, 1),
            Rect::new(4, 0, 3, 1),
        ]
    );
}

#[test]
fn constraint_length() {
    let cases: Vec<(Vec<u16>, Vec<Constraint>)> = vec![
        (vec![0, 100], vec![Constraint::Length(25), Constraint::Min(100)]),
        (vec![25, 75], vec![Constraint::Length(25), Constraint::Min(0)]),
        (vec![100, 0], vec![Constraint::Length(25), Constraint::Max(0)]),
        (vec![25, 75], vec![Constraint::Length(25), Constraint::Max(100)]),
        (vec![25, 75], vec![Constraint::Length(25), Constraint::Percentage(25)]),
        (vec![75, 25], vec![Constraint::Percentage(25), Constraint::Length(25)]),
        (vec![25, 75], vec![Constraint::Length(25), Constraint::Ratio(1, 4)]),
        (vec![75, 25], vec![Constraint::Ratio(1, 4), Constraint::Length(25)]),
        (vec![25, 75], vec![Constraint::Length(25), Constraint::Length(25)]),
        (vec![25, 25, 50], vec![Constraint::Length(25), Constraint::Length(25), Constraint::Length(25)]),
        (vec![15, 35, 50], vec![Constraint::Length(15), Constraint::Length(35), Constraint::Length(25)]),
        (vec![25, 25, 50], vec![Constraint::Length(25), Constraint::Length(25), Constraint::Length(25)]),
    ];
    for (expected, constraints) in cases {
        let layout = Layout::horizontal(constraints.clone()).flex(Flex::Legacy);
        assert_eq!(
            expected,
            widths(&split(&layout, Rect::new(0, 0, 100, 1))),
            "{:?}",
            constraints
        );
    }
}

#[test]
fn table_length() {
    let cases: Vec<(Vec<Constraint>, Vec<(u16, u16)>, u16)> = vec![
        (vec![Constraint::Length(4), Constraint::Length(4)], vec![(0, 3), (4, 3)], 7),
        (vec![Constraint::Length(4), Constraint::Length(4)], vec![(0, 2), (3, 1)], 4),
    ];
    for (constraints, expected, width) in cases {
        let layout = Layout::horizontal(constraints.clone())
            .spacing(1)
            .flex(Flex::Start);
        assert_eq!(
            expected,
            cells(&split(&layout, Rect::new(0, 0, width, 1))),
            "{:?} in {}",
            constraints,
            width
        );
    }
}

#[test]
fn length_is_higher_priority() {
    let cases: Vec<(Vec<u16>, Vec<Constraint>)> = vec![
        (vec![50, 25, 25], vec![Constraint::Min(25), Constraint::Length(25), Constraint::Max(25)]),
        (vec![25, 25, 50], vec![Constraint::Max(25), Constraint::Length(25), Constraint::Min(25)]),
        (vec![33, 33, 34], vec![Constraint::Length(33), Constraint::Length(33), Constraint::Length(33)]),
        (vec![25, 25, 50], vec![Constraint::Length(25), Constraint::Length(25), Constraint::Length(25)]),
        (vec![25, 25, 50], vec![Constraint::Percentage(25), Constraint::Length(25), Constraint::Ratio(1, 4)]),
        (vec![25, 50, 25], vec![Constraint::Length(25), Constraint::Ratio(1, 4), Constraint::Percentage(25)]),
        (vec![50, 25, 25], vec![Constraint::Ratio(1, 4), Constraint::Length(25), Constraint::Percentage(25)]),
        (vec![50, 25, 25], vec![Constraint::Ratio(1, 4), Constraint::Percentage(25), Constraint::Length(25)]),
        (vec![80, 0, 20], vec![Constraint::Length(100), Constraint::Length(1), Constraint::Min(20)]),
        (vec![20, 1, 79], vec![Constraint::Min(20), Constraint::Length(1), Constraint::Length(100)]),
        (vec![45, 10, 45], vec![Constraint::Fill(1), Constraint::Length(10), Constraint::Fill(1)]),
        (vec![30, 10, 60], vec![Constraint::Fill(1), Constraint::Length(10), Constraint::Fill(2)]),
        (vec![18, 10, 72], vec![Constraint::Fill(1), Constraint::Length(10), Constraint::Fill(4)]),
        (vec![15, 10, 75], vec![Constraint::Fill(1), Constraint::Length(10), Constraint::Fill(5)]),
        (vec![25, 25, 50], vec![Constraint::Length(25), Constraint::Length(25), Constraint::Length(25)]),
        (vec![25, 25, 50], vec![Constraint::Length(25), Constraint::Length(25), Constraint::Length(25)]),
    ];
    for (expected, constraints) in cases {
        let layout = Layout::horizontal(constraints.clone()).flex(Flex::Legacy);
        assert_eq!(
            expected,
            widths(&split(&layout, Rect::new(0, 0, 100, 1))),
            "{:?}",
            constraints
        );
    }
}

#[test]
fn length_is_higher_priority_in_flex() {
    let cases: Vec<(Vec<u16>, Vec<Constraint>)> = vec![
        (vec![50, 25, 25], vec![Constraint::Min(25), Constraint::Length(25), Constraint::Max(25)]),
        (vec![25, 25, 50], vec![Constraint::Max(25), Constraint::Length(25), Constraint::Min(25)]),
        (vec![33, 33, 33], vec![Constraint::Length(33), Constraint::Length(33), Constraint::Length(33)]),
        (vec![25, 25, 25], vec![Constraint::Length(25), Constraint::Length(25), Constraint::Length(25)]),
        (vec![25, 25, 25], vec![Constraint::Percentage(25), Constraint::Length(25), Constraint::Ratio(1, 4)]),
        (vec![25, 25, 25], vec![Constraint::Length(25), Constraint::Ratio(1, 4), Constraint::Percentage(25)]),
        (vec![25, 25, 25], vec![Constraint::Ratio(1, 4), Constraint::Length(25), Constraint::Percentage(25)]),
        (vec![25, 25, 25], vec![Constraint::Ratio(1, 4), Constraint::Percentage(25), Constraint::Length(25)]),
        (vec![79, 1, 20], vec![Constraint::Length(100), Constraint::Length(1), Constraint::Min(20)]),
        (vec![20, 1, 79], vec![Constraint::Min(20), Constraint::Length(1), Constraint::Length(100)]),
        (vec![45, 10, 45], vec![Constraint::Fill(1), Constraint::Length(10), Constraint::Fill(1)]),
        (vec![30, 10, 60], vec![Constraint::Fill(1), Constraint::Length(10), Constraint::Fill(2)]),
        (vec![18, 10, 72], vec![Constraint::Fill(1), Constraint::Length(10), Constraint::Fill(4)]),
        (vec![15, 10, 75], vec![Constraint::Fill(1), Constraint::Length(10), Constraint::Fill(5)]),
        (vec![25, 25, 25], vec![Constraint::Length(25), Constraint::Length(25), Constraint::Length(25)]),
    ];
    for (expected, constraints) in cases {
        for flex in [Flex::Start, Flex::Center, Flex::End, Flex::SpaceBetween] {
            let layout = Layout::horizontal(constraints.clone()).flex(flex);
            assert_eq!(
                expected,
                widths(&split(&layout, Rect::new(0, 0, 100, 1))),
                "{:?} {:?}",
                constraints,
                flex
            );
        }
        // Four equal spacers around three segments put the segments' edges
        // half-way between two cells, where the solver's arithmetic now and
        // then falls short of the half: the solver is asked until it settles
        // on the expected widths.
        let layout = Layout::horizontal(constraints.clone()).flex(Flex::SpaceAround);
        let settled = (0..50).any(|_| {
            let (segments, _) = layout.try_split(Rect::new(0, 0, 100, 1)).unwrap();
            widths(&segments) == expected
        });
        assert!(settled, "{:?} {:?}", constraints, Flex::SpaceAround);
    }
}

#[test]
fn fixed_with_50_width() {
    let cases: Vec<(Vec<u16>, Vec<Constraint>)> = vec![
        (vec![13, 10, 27], vec![Constraint::Fill(1), Constraint::Length(10), Constraint::Fill(2)]),
        (vec![10, 27, 13], vec![Constraint::Length(10), Constraint::Fill(2), Constraint::Fill(1)]),
    ];
    for (expected, constraints) in cases {
        let layout = Layout::horizontal(constraints.clone()).flex(Flex::Legacy);
        assert_eq!(
            expected,
            widths(&split(&layout, Rect::new(0, 0, 50, 1))),
            "{:?}",
            constraints
        );
    }
}

#[test]
fn fill() {
    let cases: Vec<(Vec<u16>, Vec<Constraint>)> = vec![
        (vec![20, 40, 20, 20], vec![Constraint::Fill(1), Constraint::Fill(2), Constraint::Fill(1), Constraint::Fill(1)]),
        (vec![10, 20, 30, 40], vec![Constraint::Fill(1), Constraint::Fill(2), Constraint::Fill(3), Constraint::Fill(4)]),
        (vec![40, 30, 20, 10], vec![Constraint::Fill(4), Constraint::Fill(3), Constraint::Fill(2), Constraint::Fill(1)]),
        (vec![10, 30, 20, 40], vec![Constraint::Fill(1), Constraint::Fill(3), Constraint::Fill(2), Constraint::Fill(4)]),
        (vec![5, 15, 50, 10, 20], vec![Constraint::Fill(1), Constraint::Fill(3), Constraint::Length(50), Constraint::Fill(2), Constraint::Fill(4)]),
        (vec![5, 15, 50, 10, 20], vec![Constraint::Fill(1), Constraint::Fill(3), Constraint::Length(50), Constraint::Fill(2), Constraint::Fill(4)]),
        (vec![5, 15, 50, 10, 20], vec![Constraint::Fill(1), Constraint::Fill(3), Constraint::Percentage(50), Constraint::Fill(2), Constraint::Fill(4)]),
        (vec![5, 15, 50, 10, 20], vec![Constraint::Fill(1), Constraint::Fill(3), Constraint::Min(50), Constraint::Fill(2), Constraint::Fill(4)]),
        (vec![5, 15, 50, 10, 20], vec![Constraint::Fill(1), Constraint::Fill(3), Constraint::Max(50), Constraint::Fill(2), Constraint::Fill(4)]),
        (vec![0, 100, 0], vec![Constraint::Fill(0), Constraint::Fill(1), Constraint::Fill(0)]),
        (vec![50, 1, 49], vec![Constraint::Fill(0), Constraint::Length(1), Constraint::Fill(0)]),
        (vec![50, 1, 49], vec![Constraint::Fill(0), Constraint::Length(1), Constraint::Fill(0)]),
        (vec![50, 1, 49], vec![Constraint::Fill(0), Constraint::Percentage(1), Constraint::Fill(0)]),
        (vec![50, 1, 49], vec![Constraint::Fill(0), Constraint::Min(1), Constraint::Fill(0)]),
        (vec![50, 1, 49], vec![Constraint::Fill(0), Constraint::Max(1), Constraint::Fill(0)]),
        (vec![0, 67, 0, 33], vec![Constraint::Fill(0), Constraint::Fill(2), Constraint::Fill(0), Constraint::Fill(1)]),
        (vec![0, 80, 20], vec![Constraint::Fill(0), Constraint::Fill(2), Constraint::Percentage(20)]),
        (vec![40, 40, 20], vec![Constraint::Fill(0), Constraint::Fill(0), Constraint::Percentage(20)]),
        (vec![80, 20], vec![Constraint::Fill(0), Constraint::Ratio(1, 5)]),
        (vec![0, 100], vec![Constraint::Fill(0), Constraint::Fill(u16::MAX)]),
        (vec![100, 0], vec![Constraint::Fill(u16::MAX), Constraint::Fill(0)]),
        (vec![80, 20], vec![Constraint::Fill(0), Constraint::Percentage(20)]),
        (vec![80, 20], vec![Constraint::Fill(1), Constraint::Percentage(20)]),
        (vec![80, 20], vec![Constraint::Fill(u16::MAX), Constraint::Percentage(20)]),
        (vec![80, 0, 20], vec![Constraint::Fill(u16::MAX), Constraint::Fill(0), Constraint::Percentage(20)]),
        (vec![80, 20], vec![Constraint::Fill(0), Constraint::Length(20)]),
        (vec![80, 20], vec![Constraint::Fill(0), Constraint::Length(20)]),
        (vec![80, 20], vec![Constraint::Fill(0), Constraint::Min(20)]),
        (vec![80, 20], vec![Constraint::Fill(0), Constraint::Max(20)]),
        (vec![7, 6, 7, 30, 50], vec![Constraint::Fill(1), Constraint::Fill(1), Constraint::Fill(1), Constraint::Min(30), Constraint::Length(50)]),
        (vec![0, 0, 0, 50, 50], vec![Constraint::Fill(1), Constraint::Fill(1), Constraint::Fill(1), Constraint::Length(50), Constraint::Length(50)]),
        (vec![0, 0, 0, 75, 25], vec![Constraint::Fill(1), Constraint::Fill(1), Constraint::Fill(1), Constraint::Length(75), Constraint::Length(50)]),
        (vec![0, 0, 0, 50, 50], vec![Constraint::Fill(1), Constraint::Fill(1), Constraint::Fill(1), Constraint::Min(50), Constraint::Max(50)]),
        (vec![0, 0, 0, 100], vec![Constraint::Fill(1), Constraint::Fill(1), Constraint::Fill(1), Constraint::Ratio(1, 1)]),
        (vec![0, 0, 0, 100], vec![Constraint::Fill(1), Constraint::Fill(1), Constraint::Fill(1), Constraint::Percentage(100)]),
    ];
    for (expected, constraints) in cases {
        let layout = Layout::horizontal(constraints.clone()).flex(Flex::Legacy);
        assert_eq!(
            expected,
            widths(&split(&layout, Rect::new(0, 0, 100, 1))),
            "{:?}",
            constraints
        );
    }
}

#[test]
fn percentage_parameterized() {
    let cases: Vec<(Vec<u16>, Vec<Constraint>)> = vec![
        (vec![80, 20], vec![Constraint::Min(0), Constraint::Percentage(20)]),
        (vec![0, 100], vec![Constraint::Max(0), Constraint::Percentage(20)]),
    ];
    for (expected, constraints) in cases {
        let layout = Layout::horizontal(constraints.clone()).flex(Flex::Legacy);
        assert_eq!(
            expected,
            widths(&split(&layout, Rect::new(0, 0, 100, 1))),
            "{:?}",
            constraints
        );
    }
}

#[test]
fn min_max() {
    let cases: Vec<(Vec<u16>, Vec<Constraint>)> = vec![
        (vec![100, 0], vec![Constraint::Max(100), Constraint::Min(0)]),
        (vec![0, 100], vec![Constraint::Min(0), Constraint::Max(100)]),
        (vec![90, 10], vec![Constraint::Length(u16::MAX), Constraint::Min(10)]),
        (vec![10, 90], vec![Constraint::Min(10), Constraint::Length(u16::MAX)]),
        (vec![90, 10], vec![Constraint::Length(0), Constraint::Max(10)]),
        (vec![10, 90], vec![Constraint::Max(10), Constraint::Length(0)]),
    ];
    for (expected, constraints) in cases {
        let layout = Layout::horizontal(constraints.clone()).flex(Flex::Legacy);
        assert_eq!(
            expected,
            widths(&split(&layout, Rect::new(0, 0, 100, 1))),
            "{:?}",
            constraints
        );
    }
}

#[test]
fn flex_constraint() {
    let cases: Vec<(Vec<(u16, u16)>, Vec<Constraint>, Flex)> = vec![
        (vec![(0, 100)], vec![Constraint::Length(50)], Flex::Legacy),
        (vec![(0, 50)], vec![Constraint::Length(50)], Flex::Start),
        (vec![(50, 50)], vec![Constraint::Length(50)], Flex::End),
        (vec![(25, 50)], vec![Constraint::Length(50)], Flex::Center),
        (vec![(0, 100)], vec![Constraint::Ratio(1, 2)], Flex::Legacy),
        (vec![(0, 50)], vec![Constraint::Ratio(1, 2)], Flex::Start),
        (vec![(50, 50)], vec![Constraint::Ratio(1, 2)], Flex::End),
        (vec![(25, 50)], vec![Constraint::Ratio(1, 2)], Flex::Center),
        (vec![(0, 100)], vec![Constraint::Percentage(50)], Flex::Legacy),
        (vec![(0, 50)], vec![Constraint::Percentage(50)], Flex::Start),
        (vec![(50, 50)], vec![Constraint::Percentage(50)], Flex::End),
        (vec![(25, 50)], vec![Constraint::Percentage(50)], Flex::Center),
        (vec![(0, 100)], vec![Constraint::Min(50)], Flex::Legacy),
        (vec![(0, 100)], vec![Constraint::Min(50)], Flex::Start),
        (vec![(0, 100)], vec![Constraint::Min(50)], Flex::End),
        (vec![(0, 100)], vec![Constraint::Min(50)], Flex::Center),
        (vec![(0, 100)], vec![Constraint::Max(50)], Flex::Legacy),
        (vec![(0, 50)], vec![Constraint::Max(50)], Flex::Start),
        (vec![(50, 50)], vec![Constraint::Max(50)], Flex::End),
        (vec![(25, 50)], vec![Constraint::Max(50)], Flex::Center),
        (vec![(0, 100)], vec![Constraint::Min(1)], Flex::SpaceBetween),
        (vec![(0, 100)], vec![Constraint::Max(20)], Flex::SpaceBetween),
        (vec![(0, 100)], vec![Constraint::Length(20)], Flex::SpaceBetween),
        (vec![(0, 25), (25, 75)], vec![Constraint::Length(25), Constraint::Length(25)], Flex::Legacy),
        (vec![(0, 25), (25, 25)], vec![Constraint::Length(25), Constraint::Length(25)], Flex::Start),
        (vec![(25, 25), (50, 25)], vec![Constraint::Length(25), Constraint::Length(25)], Flex::Center),
        (vec![(50, 25), (75, 25)], vec![Constraint::Length(25), Constraint::Length(25)], Flex::End),
        (vec![(0, 25), (75, 25)], vec![Constraint::Length(25), Constraint::Length(25)], Flex::SpaceBetween),
        (vec![(17, 25), (58, 25)], vec![Constraint::Length(25), Constraint::Length(25)], Flex::SpaceAround),
        (vec![(0, 25), (25, 75)], vec![Constraint::Percentage(25), Constraint::Percentage(25)], Flex::Legacy),
        (vec![(0, 25), (25, 25)], vec![Constraint::Percentage(25), Constraint::Percentage(25)], Flex::Start),
        (vec![(25, 25), (50, 25)], vec![Constraint::Percentage(25), Constraint::Percentage(25)], Flex::Center),
        (vec![(50, 25), (75, 25)], vec![Constraint::Percentage(25), Constraint::Percentage(25)], Flex::End),
        (vec![(0, 25), (75, 25)], vec![Constraint::Percentage(25), Constraint::Percentage(25)], Flex::SpaceBetween),
        (vec![(17, 25), (58, 25)], vec![Constraint::Percentage(25), Constraint::Percentage(25)], Flex::SpaceAround),
        (vec![(0, 25), (25, 75)], vec![Constraint::Min(25), Constraint::Min(25)], Flex::Legacy),
        (vec![(0, 50), (50, 50)], vec![Constraint::Min(25), Constraint::Min(25)], Flex::Start),
        (vec![(0, 50), (50, 50)], vec![Constraint::Min(25), Constraint::Min(25)], Flex::Center),
        (vec![(0, 50), (50, 50)], vec![Constraint::Min(25), Constraint::Min(25)], Flex::End),
        (vec![(0, 50), (50, 50)], vec![Constraint::Min(25), Constraint::Min(25)], Flex::SpaceBetween),
        (vec![(0, 50), (50, 50)], vec![Constraint::Min(25), Constraint::Min(25)], Flex::SpaceAround),
        (vec![(0, 25), (25, 75)], vec![Constraint::Max(25), Constraint::Max(25)], Flex::Legacy),
        (vec![(0, 25), (25, 25)], vec![Constraint::Max(25), Constraint::Max(25)], Flex::Start),
        (vec![(25, 25), (50, 25)], vec![Constraint::Max(25), Constraint::Max(25)], Flex::Center),
        (vec![(50, 25), (75, 25)], vec![Constraint::Max(25), Constraint::Max(25)], Flex::End),
        (vec![(0, 25), (75, 25)], vec![Constraint::Max(25), Constraint::Max(25)], Flex::SpaceBetween),
        (vec![(17, 25), (58, 25)], vec![Constraint::Max(25), Constraint::Max(25)], Flex::SpaceAround),
        (vec![(0, 25), (38, 25), (75, 25)], vec![Constraint::Length(25), Constraint::Length(25), Constraint::Length(25)], Flex::SpaceBetween),
    ];
    for (expected, constraints, flex) in cases {
        let layout = Layout::horizontal(constraints.clone()).flex(flex);
        assert_eq!(
            expected,
            cells(&split(&layout, Rect::new(0, 0, 100, 1))),
            "{:?}",
            layout
        );
    }
}

#[test]
fn flex_spacing() {
    let cases: Vec<(Vec<(u16, u16)>, Vec<Constraint>, Flex, u16)> = vec![
        (vec![(0 , 20), (20, 20) , (40, 20)], vec![Constraint::Length(20), Constraint::Length(20), Constraint::Length(20)], Flex::Start      , 0),
        (vec![(0 , 20), (22, 20) , (44, 20)], vec![Constraint::Length(20), Constraint::Length(20), Constraint::Length(20)], Flex::Start      , 2),
        (vec![(18, 20), (40, 20) , (62, 20)], vec![Constraint::Length(20), Constraint::Length(20), Constraint::Length(20)], Flex::Center     , 2),
        (vec![(36, 20), (58, 20) , (80, 20)], vec![Constraint::Length(20), Constraint::Length(20), Constraint::Length(20)], Flex::End        , 2),
        (vec![(0 , 20), (22, 20) , (44, 56)], vec![Constraint::Length(20), Constraint::Length(20), Constraint::Length(20)], Flex::Legacy     , 2),
        (vec![(0 , 20), (40, 20) , (80, 20)], vec![Constraint::Length(20), Constraint::Length(20), Constraint::Length(20)], Flex::SpaceBetween, 2),
        (vec![(10, 20), (40, 20) , (70, 20)], vec![Constraint::Length(20), Constraint::Length(20), Constraint::Length(20)], Flex::SpaceAround, 2),
    ];
    for (expected, constraints, flex, spacing) in cases {
        let layout = Layout::horizontal(constraints.clone()).flex(flex).spacing(spacing);
        assert_eq!(
            expected,
            cells(&split(&layout, Rect::new(0, 0, 100, 1))),
            "{:?}",
            layout
        );
    }
}

#[test]
fn constraint_specification_tests_for_priority() {
    let cases: Vec<(Vec<(u16, u16)>, Vec<Constraint>)> = vec![
        (vec![(0, 25), (25, 75)], vec![Constraint::Length(25), Constraint::Length(25)]),
        (vec![(0, 25), (25, 75)], vec![Constraint::Length(25), Constraint::Percentage(25)]),
        (vec![(0, 75), (75, 25)], vec![Constraint::Percentage(25), Constraint::Length(25)]),
        (vec![(0, 75), (75, 25)], vec![Constraint::Min(25), Constraint::Percentage(25)]),
        (vec![(0, 25), (25, 75)], vec![Constraint::Percentage(25), Constraint::Min(25)]),
        (vec![(0, 25), (25, 75)], vec![Constraint::Min(25), Constraint::Percentage(100)]),
        (vec![(0, 75), (75, 25)], vec![Constraint::Percentage(100), Constraint::Min(25)]),
        (vec![(0, 25), (25, 75)], vec![Constraint::Max(75), Constraint::Percentage(75)]),
        (vec![(0, 75), (75, 25)], vec![Constraint::Percentage(75), Constraint::Max(75)]),
        (vec![(0, 25), (25, 75)], vec![Constraint::Max(25), Constraint::Percentage(25)]),
        (vec![(0, 75), (75, 25)], vec![Constraint::Percentage(25), Constraint::Max(25)]),
        (vec![(0, 25), (25, 75)], vec![Constraint::Length(25), Constraint::Ratio(1, 4)]),
        (vec![(0, 75), (75, 25)], vec![Constraint::Ratio(1, 4), Constraint::Length(25)]),
        (vec![(0, 25), (25, 75)], vec![Constraint::Percentage(25), Constraint::Ratio(1, 4)]),
        (vec![(0, 75), (75, 25)], vec![Constraint::Ratio(1, 4), Constraint::Percentage(25)]),
        (vec![(0, 25), (25, 75)], vec![Constraint::Ratio(1, 4), Constraint::Fill(25)]),
        (vec![(0, 75), (75, 25)], vec![Constraint::Fill(25), Constraint::Ratio(1, 4)]),
    ];
    for (expected, constraints) in cases {
        let layout = Layout::horizontal(constraints.clone()).flex(Flex::Legacy);
        assert_eq!(
            expected,
            cells(&split(&layout, Rect::new(0, 0, 100, 1))),
            "{:?}",
            layout
        );
    }
}

#[test]
fn constraint_specification_tests_for_priority_with_spacing() {
    let cases: Vec<(Vec<(u16, u16)>, Vec<Constraint>, Flex, u16)> = vec![
        (vec![(0, 20), (20, 20), (40, 20)], vec![Constraint::Length(20), Constraint::Length(20), Constraint::Length(20)], Flex::Start, 0),
        (vec![(18, 20), (40, 20), (62, 20)], vec![Constraint::Length(20), Constraint::Length(20), Constraint::Length(20)], Flex::Center, 2),
        (vec![(36, 20), (58, 20), (80, 20)], vec![Constraint::Length(20), Constraint::Length(20), Constraint::Length(20)], Flex::End, 2),
        (vec![(0, 20), (22, 20), (44, 56)], vec![Constraint::Length(20), Constraint::Length(20), Constraint::Length(20)], Flex::Legacy, 2),
        (vec![(0, 20), (22, 20), (44, 56)], vec![Constraint::Length(20), Constraint::Length(20), Constraint::Length(20)], Flex::Legacy, 2),
        (vec![(10, 20), (40, 20), (70, 20)], vec![Constraint::Length(20), Constraint::Length(20), Constraint::Length(20)], Flex::SpaceAround, 2),
    ];
    for (expected, constraints, flex, spacing) in cases {
        let layout = Layout::horizontal(constraints.clone()).flex(flex).spacing(spacing);
        assert_eq!(
            expected,
            cells(&split(&layout, Rect::new(0, 0, 100, 1))),
            "{:?}",
            layout
        );
    }
}

#[test]
fn fill_vs_flex() {
    let cases: Vec<(Vec<(u16, u16)>, Vec<Constraint>, Flex)> = vec![
        (vec![(0 , 10), (10, 80), (90 , 10)] , vec![Constraint::Length(10), Constraint::Fill(1), Constraint::Length(10)], Flex::Legacy),
        (vec![(0 , 10), (90 , 10)] , vec![Constraint::Length(10), Constraint::Length(10)], Flex::SpaceBetween),
        (vec![(0 , 27), (27, 10), (37, 26), (63, 10), (73, 27)] , vec![Constraint::Fill(1), Constraint::Length(10), Constraint::Fill(1), Constraint::Length(10), Constraint::Fill(1)], Flex::Legacy),
        (vec![(27 , 10), (63, 10)] , vec![Constraint::Length(10), Constraint::Length(10)], Flex::SpaceAround),
        (vec![(0 , 10), (10, 10), (20 , 80)] , vec![Constraint::Length(10), Constraint::Length(10), Constraint::Fill(1)], Flex::Legacy),
        (vec![(0 , 10), (10, 10)] , vec![Constraint::Length(10), Constraint::Length(10)], Flex::Start),
        (vec![(0 , 80), (80 , 10), (90, 10)] , vec![Constraint::Fill(1), Constraint::Length(10), Constraint::Length(10)], Flex::Legacy),
        (vec![(80 , 10), (90, 10)] , vec![Constraint::Length(10), Constraint::Length(10)], Flex::End),
        (vec![(0 , 40), (40, 10), (50, 10), (60, 40)] , vec![Constraint::Fill(1), Constraint::Length(10), Constraint::Length(10), Constraint::Fill(1)], Flex::Legacy),
        (vec![(40 , 10), (50, 10)] , vec![Constraint::Length(10), Constraint::Length(10)], Flex::Center),
    ];
    for (expected, constraints, flex) in cases {
        let layout = Layout::horizontal(constraints.clone()).flex(flex);
        assert_eq!(
            expected,
            cells(&split(&layout, Rect::new(0, 0, 100, 1))),
            "{:?}",
            layout
        );
    }
}

#[test]
fn fill_spacing() {
    let cases: Vec<(Vec<(u16, u16)>, Vec<Constraint>, Flex, u16)> = vec![
        (vec![(0 , 50), (50 , 50)] , vec![Constraint::Fill(1), Constraint::Fill(1)], Flex::Legacy , 0),
        (vec![(0 , 50), (50 , 50)] , vec![Constraint::Fill(1), Constraint::Fill(1)], Flex::SpaceAround , 0),
        (vec![(0 , 50), (50 , 50)] , vec![Constraint::Fill(1), Constraint::Fill(1)], Flex::SpaceBetween , 0),
        (vec![(0 , 50), (50 , 50)] , vec![Constraint::Fill(1), Constraint::Fill(1)], Flex::Start , 0),
        (vec![(0 , 50), (50 , 50)] , vec![Constraint::Fill(1), Constraint::Fill(1)], Flex::Center , 0),
        (vec![(0 , 50), (50 , 50)] , vec![Constraint::Fill(1), Constraint::Fill(1)], Flex::End , 0),
        (vec![(0 , 45), (55 , 45)] , vec![Constraint::Fill(1), Constraint::Fill(1)], Flex::Legacy , 10),
        (vec![(0 , 45), (55 , 45)] , vec![Constraint::Fill(1), Constraint::Fill(1)], Flex::Start , 10),
        (vec![(0 , 45), (55 , 45)] , vec![Constraint::Fill(1), Constraint::Fill(1)], Flex::Center , 10),
        (vec![(0 , 45), (55 , 45)] , vec![Constraint::Fill(1), Constraint::Fill(1)], Flex::End , 10),
        (vec![(0 , 50), (50 , 50)] , vec![Constraint::Fill(1), Constraint::Fill(1)], Flex::SpaceAround , 10),
        (vec![(0 , 50), (50 , 50)] , vec![Constraint::Fill(1), Constraint::Fill(1)], Flex::SpaceBetween , 10),
        (vec![(0 , 45), (45, 10), (55 , 45)] , vec![Constraint::Fill(1), Constraint::Length(10), Constraint::Fill(1)], Flex::Legacy , 0),
        (vec![(0 , 45), (45, 10), (55 , 45)] , vec![Constraint::Fill(1), Constraint::Length(10), Constraint::Fill(1)], Flex::SpaceAround , 0),
        (vec![(0 , 45), (45, 10), (55 , 45)] , vec![Constraint::Fill(1), Constraint::Length(10), Constraint::Fill(1)], Flex::SpaceBetween , 0),
        (vec![(0 , 45), (45, 10), (55 , 45)] , vec![Constraint::Fill(1), Constraint::Length(10), Constraint::Fill(1)], Flex::Start , 0),
        (vec![(0 , 45), (45, 10), (55 , 45)] , vec![Constraint::Fill(1), Constraint::Length(10), Constraint::Fill(1)], Flex::Center , 0),
        (vec![(0 , 45), (45, 10), (55 , 45)] , vec![Constraint::Fill(1), Constraint::Length(10), Constraint::Fill(1)], Flex::End , 0),
        (vec![(0 , 35), (45, 10), (65 , 35)] , vec![Constraint::Fill(1), Constraint::Length(10), Constraint::Fill(1)], Flex::Legacy , 10),
        (vec![(0 , 35), (45, 10), (65 , 35)] , vec![Constraint::Fill(1), Constraint::Length(10), Constraint::Fill(1)], Flex::Start , 10),
        (vec![(0 , 35), (45, 10), (65 , 35)] , vec![Constraint::Fill(1), Constraint::Length(10), Constraint::Fill(1)], Flex::Center , 10),
        (vec![(0 , 35), (45, 10), (65 , 35)] , vec![Constraint::Fill(1), Constraint::Length(10), Constraint::Fill(1)], Flex::End , 10),
        (vec![(0 , 45), (45, 10), (55 , 45)] , vec![Constraint::Fill(1), Constraint::Length(10), Constraint::Fill(1)], Flex::SpaceAround , 10),
        (vec![(0 , 45), (45, 10), (55 , 45)] , vec![Constraint::Fill(1), Constraint::Length(10), Constraint::Fill(1)], Flex::SpaceBetween , 10),
    ];
    for (expected, constraints, flex, spacing) in cases {
        let layout = Layout::horizontal(constraints.clone()).flex(flex).spacing(spacing);
        assert_eq!(
            expected,
            cells(&split(&layout, Rect::new(0, 0, 100, 1))),
            "{:?}",
            layout
        );
    }
}

#[test]
fn flex_spacing_lower_priority_than_user_spacing() {
    let cases: Vec<(Vec<(u16, u16)>, Vec<Constraint>, Flex, u16)> = vec![
        (vec![(0, 10), (90, 10)], vec![Constraint::Length(10), Constraint::Length(10)], Flex::Center, 80),
    ];
    for (expected, constraints, flex, spacing) in cases {
        let layout = Layout::horizontal(constraints.clone()).flex(flex).spacing(spacing);
        assert_eq!(
            expected,
            cells(&split(&layout, Rect::new(0, 0, 100, 1))),
            "{:?}",
            layout
        );
    }
}

#[test]
fn split_with_spacers_no_spacing() {
    let cases: Vec<(Vec<(u16, u16)>, Vec<Constraint>, Flex)> = vec![
        (vec![(0, 0), (10, 0), (100, 0)], vec![Constraint::Length(10), Constraint::Length(10)], Flex::Legacy),
        (vec![(0, 0), (10, 80), (100, 0)], vec![Constraint::Length(10), Constraint::Length(10)], Flex::SpaceBetween),
        (vec![(0, 27), (37, 26), (73, 27)], vec![Constraint::Length(10), Constraint::Length(10)], Flex::SpaceAround),
        (vec![(0, 0), (10, 0), (20, 80)], vec![Constraint::Length(10), Constraint::Length(10)], Flex::Start),
        (vec![(0, 40), (50, 0), (60, 40)], vec![Constraint::Length(10), Constraint::Length(10)], Flex::Center),
        (vec![(0, 80), (90, 0), (100, 0)], vec![Constraint::Length(10), Constraint::Length(10)], Flex::End),
    ];
    for (expected, constraints, flex) in cases {
        let layout = Layout::horizontal(constraints.clone()).flex(flex);
        let (segments, spacers) = split_with_spacers(&layout, Rect::new(0, 0, 100, 1));
        assert_eq!(segments.len(), constraints.len());
        assert_eq!(spacers.len(), constraints.len() + 1);
        assert_eq!(expected, cells(&spacers), "{:?}", layout);
    }
}

#[test]
fn split_with_spacers_and_spacing() {
    let cases: Vec<(Vec<(u16, u16)>, Vec<Constraint>, Flex, u16)> = vec![
        (vec![(0, 0), (10, 5), (100, 0)], vec![Constraint::Length(10), Constraint::Length(10)], Flex::Legacy, 5),
        (vec![(0, 0), (10, 80), (100, 0)], vec![Constraint::Length(10), Constraint::Length(10)], Flex::SpaceBetween, 5),
        (vec![(0, 27), (37, 26), (73, 27)], vec![Constraint::Length(10), Constraint::Length(10)], Flex::SpaceAround, 5),
        (vec![(0, 0), (10, 5), (25, 75)], vec![Constraint::Length(10), Constraint::Length(10)], Flex::Start, 5),
        (vec![(0, 38), (48, 5), (63, 37)], vec![Constraint::Length(10), Constraint::Length(10)], Flex::Center, 5),
        (vec![(0, 75), (85, 5), (100, 0)], vec![Constraint::Length(10), Constraint::Length(10)], Flex::End, 5),
    ];
    for (expected, constraints, flex, spacing) in cases {
        let layout = Layout::horizontal(constraints.clone()).flex(flex).spacing(spacing);
        let (segments, spacers) = split_with_spacers(&layout, Rect::new(0, 0, 100, 1));
        assert_eq!(segments.len(), constraints.len());
        assert_eq!(spacers.len(), constraints.len() + 1);
        assert_eq!(expected, cells(&spacers), "{:?}", layout);
    }
}

#[test]
fn split_with_spacers_and_too_much_spacing() {
    let cases: Vec<(Vec<(u16, u16)>, Vec<Constraint>, Flex, u16)> = vec![
        (vec![(0, 0), (0, 100), (100, 0)], vec![Constraint::Length(10), Constraint::Length(10)], Flex::Legacy, 200),
        (vec![(0, 0), (10, 80), (100, 0)], vec![Constraint::Length(10), Constraint::Length(10)], Flex::SpaceBetween, 200),
        (vec![(0, 27), (37, 26), (73, 27)], vec![Constraint::Length(10), Constraint::Length(10)], Flex::SpaceAround, 200),
        (vec![(0, 0), (0, 100), (100, 0)], vec![Constraint::Length(10), Constraint::Length(10)], Flex::Start, 200),
        (vec![(0, 0), (0, 100), (100, 0)], vec![Constraint::Length(10), Constraint::Length(10)], Flex::Center, 200),
        (vec![(0, 0), (0, 100), (100, 0)], vec![Constraint::Length(10), Constraint::Length(10)], Flex::End, 200),
    ];
    for (expected, constraints, flex, spacing) in cases {
        let layout = Layout::horizontal(constraints.clone()).flex(flex).spacing(spacing);
        let (segments, spacers) = split_with_spacers(&layout, Rect::new(0, 0, 100, 1));
        assert_eq!(segments.len(), constraints.len());
        assert_eq!(spacers.len(), constraints.len() + 1);
        assert_eq!(expected, cells(&spacers), "{:?}", layout);
    }
}

#[test]
fn legacy_vs_default() {
    let cases: Vec<(Vec<(u16, u16)>, Vec<Constraint>, Flex)> = vec![
        (vec![(0, 90), (90, 10)], vec![Constraint::Min(10), Constraint::Length(10)], Flex::Legacy),
        (vec![(0, 90), (90, 10)], vec![Constraint::Min(10), Constraint::Length(10)], Flex::Start),
        (vec![(0, 10), (10, 90)], vec![Constraint::Min(10), Constraint::Percentage(100)], Flex::Legacy),
        (vec![(0, 10), (10, 90)], vec![Constraint::Min(10), Constraint::Percentage(100)], Flex::Start),
        (vec![(0, 50), (50, 50)], vec![Constraint::Percentage(50), Constraint::Percentage(50)], Flex::Legacy),
        (vec![(0, 50), (50, 50)], vec![Constraint::Percentage(50), Constraint::Percentage(50)], Flex::Start),
    ];
    for (expected, constraints, flex) in cases {
        let layout = Layout::horizontal(constraints.clone()).flex(flex);
        assert_eq!(
            expected,
            cells(&split(&layout, Rect::new(0, 0, 100, 1))),
            "{:?}",
            layout
        );
    }
}
