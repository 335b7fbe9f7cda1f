use cargo_measuretests::sorting::sort_targets;
use cargo_measuretests::target::{has_distinct_identities, TargetId, TargetKind, TestTarget};
use cargo_measuretests::text::{decimal, text_before};

fn target(package: &str, kind: TargetKind, name: &str) -> TestTarget {
    TestTarget {
        package_name: package.to_string(),
        target_kind: kind,
        target_name: name.to_string(),
        executable_path: format!("/build/{}-{}", package, name),
        harness: true,
    }
}

fn keys(targets: &[TestTarget]) -> Vec<(String, TargetKind, String)> {
    targets
        .iter()
        .map(|t| (t.package_name.clone(), t.target_kind, t.target_name.clone()))
        .collect()
}

#[test]
fn text_order_is_lexicographic() {
    assert!(text_before("a", "b"));
    assert!(!text_before("b", "a"));
    assert!(text_before("ab", "b"));
    assert!(text_before("abc", "abd"));
    assert!(!text_before("abd", "abc"));
}

#[test]
fn text_order_puts_a_prefix_first() {
    assert!(text_before("", "a"));
    assert!(text_before("pkg", "pkgA"));
    assert!(!text_before("pkgA", "pkg"));
}

#[test]
fn text_order_is_strict() {
    assert!(!text_before("", ""));
    assert!(!text_before("same", "same"));
}

#[test]
fn text_order_goes_by_code_point() {
    assert!(text_before("Z", "a"));
    assert!(text_before("z", "\u{e9}"));
    assert!(text_before("\u{e9}", "\u{1f600}"));
    assert!(!text_before("\u{1f600}", "\u{e9}"));
}

#[test]
fn text_order_agrees_with_str_order() {
    let words = ["", "a", "A", "ab", "b", "ba", "\u{e9}", "a\u{e9}", "zz", "\u{10348}", "~"];
    for x in words.iter() {
        for y in words.iter() {
            assert_eq!(text_before(x, y), x < y);
        }
    }
}

#[test]
fn decimal_writes_digits() {
    assert_eq!(decimal(0), "0");
    assert_eq!(decimal(7), "7");
    assert_eq!(decimal(10), "10");
    assert_eq!(decimal(905), "905");
    assert_eq!(decimal(1234567890), "1234567890");
    assert_eq!(decimal(usize::MAX), usize::MAX.to_string());
}

#[test]
fn kinds_rank_in_declaration_order() {
    let kinds = [
        TargetKind::Lib,
        TargetKind::Bin,
        TargetKind::Test,
        TargetKind::Example,
        TargetKind::Bench,
        TargetKind::Doctest,
    ];
    for (i, k) in kinds.iter().enumerate() {
        assert_eq!(k.rank() as usize, i);
    }
}

#[test]
fn precedes_compares_package_then_kind_then_name() {
    let a = target("pkgA", TargetKind::Test, "t1");
    let b = target("pkgA", TargetKind::Test, "t2");
    let c = target("pkgB", TargetKind::Bin, "t0");
    let d = target("pkgA", TargetKind::Bin, "zz");
    assert!(a.precedes(&b));
    assert!(!b.precedes(&a));
    assert!(a.precedes(&c));
    assert!(b.precedes(&c));
    assert!(d.precedes(&a));
    assert!(!a.precedes(&a));
}

#[test]
fn precedes_ignores_path_and_harness() {
    let mut a = target("p", TargetKind::Lib, "n");
    let mut b = target("p", TargetKind::Lib, "n");
    a.executable_path = "/a".to_string();
    b.executable_path = "/b".to_string();
    b.harness = false;
    assert!(!a.precedes(&b));
    assert!(!b.precedes(&a));
}

#[test]
fn identity_names_the_target() {
    let t = target("pkg", TargetKind::Example, "demo");
    let id = t.identity();
    assert_eq!(
        id,
        TargetId {
            package_name: "pkg".to_string(),
            target_kind: TargetKind::Example,
            target_name: "demo".to_string(),
        }
    );
    assert!(id.same(&t.identity()));
    assert!(!id.same(&target("pkg", TargetKind::Example, "other").identity()));
    assert!(!id.same(&target("pkg", TargetKind::Bench, "demo").identity()));
    assert!(!id.same(&target("pk", TargetKind::Example, "demo").identity()));
}

#[test]
fn sort_orders_by_key() {
    let sorted = sort_targets(vec![
        target("pkgB", TargetKind::Bin, "t3"),
        target("pkgA", TargetKind::Test, "t2"),
        target("pkgA", TargetKind::Test, "t1"),
        target("pkgA", TargetKind::Lib, "pkgA"),
        target("pkgB", TargetKind::Lib, "a"),
    ]);
    assert_eq!(
        keys(&sorted),
        vec![
            ("pkgA".to_string(), TargetKind::Lib, "pkgA".to_string()),
            ("pkgA".to_string(), TargetKind::Test, "t1".to_string()),
            ("pkgA".to_string(), TargetKind::Test, "t2".to_string()),
            ("pkgB".to_string(), TargetKind::Lib, "a".to_string()),
            ("pkgB".to_string(), TargetKind::Bin, "t3".to_string()),
        ]
    );
}

#[test]
fn sort_of_nothing_is_nothing() {
    assert!(sort_targets(Vec::new()).is_empty());
}

#[test]
fn sort_keeps_every_target() {
    let given = vec![
        target("c", TargetKind::Bench, "x"),
        target("a", TargetKind::Doctest, "x"),
        target("b", TargetKind::Example, "x"),
        target("a", TargetKind::Lib, "x"),
    ];
    let sorted = sort_targets(given.clone());
    assert_eq!(sorted.len(), given.len());
    for t in given.iter() {
        assert_eq!(sorted.iter().filter(|s| *s == t).count(), 1);
    }
}

#[test]
fn sort_is_idempotent() {
    let given = vec![
        target("pkgB", TargetKind::Bin, "t3"),
        target("pkgA", TargetKind::Test, "t2"),
        target("pkgC", TargetKind::Example, "e"),
        target("pkgA", TargetKind::Test, "t1"),
        target("pkgA", TargetKind::Bench, "b"),
    ];
    let once = sort_targets(given);
    let twice = sort_targets(once.clone());
    assert_eq!(once, twice);
}

#[test]
fn sort_does_not_depend_on_the_given_order() {
    let a = target("pkgA", TargetKind::Test, "t1");
    let b = target("pkgA", TargetKind::Test, "t2");
    let c = target("pkgB", TargetKind::Bin, "t3");
    let expected = vec![a.clone(), b.clone(), c.clone()];
    assert_eq!(sort_targets(vec![a.clone(), b.clone(), c.clone()]), expected);
    assert_eq!(sort_targets(vec![c.clone(), b.clone(), a.clone()]), expected);
    assert_eq!(sort_targets(vec![b.clone(), c.clone(), a.clone()]), expected);
    assert_eq!(sort_targets(vec![c, a, b]), expected);
}

#[test]
fn sort_keeps_equal_keys_as_given() {
    let mut first = target("p", TargetKind::Test, "t");
    let mut second = target("p", TargetKind::Test, "t");
    first.executable_path = "/first".to_string();
    second.executable_path = "/second".to_string();
    let early = target("a", TargetKind::Lib, "a");
    let sorted = sort_targets(vec![first.clone(), second.clone(), early.clone()]);
    assert_eq!(sorted, vec![early, first, second]);
}

#[test]
fn distinct_identities_are_recognised() {
    assert!(has_distinct_identities(&Vec::new()));
    assert!(has_distinct_identities(&vec![target("p", TargetKind::Lib, "p")]));
    assert!(has_distinct_identities(&vec![
        target("p", TargetKind::Test, "a"),
        target("p", TargetKind::Test, "b"),
        target("p", TargetKind::Bin, "a"),
        target("q", TargetKind::Test, "a"),
    ]));
}

#[test]
fn a_repeated_identity_is_recognised() {
    let mut again = target("p", TargetKind::Test, "a");
    again.executable_path = "/elsewhere".to_string();
    again.harness = false;
    assert!(!has_distinct_identities(&vec![
        target("p", TargetKind::Test, "a"),
        target("p", TargetKind::Test, "b"),
        again,
    ]));
    assert!(!has_distinct_identities(&vec![
        target("p", TargetKind::Lib, "p"),
        target("p", TargetKind::Lib, "p"),
    ]));
}
