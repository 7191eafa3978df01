use distronomicon::prune::{
    count_pruned, disk_limit, disk_step, policy_plan, release_list, walk_order, DiskStep, ReleaseFolder,
    Walk, NS_PER_DAY,
};

fn folder(tag: &str, modified_ns: u64) -> ReleaseFolder {
    ReleaseFolder { tag: tag.to_string(), modified_ns }
}

fn tags(fs: &[ReleaseFolder], idx: &[usize]) -> Vec<String> {
    idx.iter().map(|&i| fs[i].tag.clone()).collect()
}

#[test]
fn releases_are_listed_newest_first() {
    let fs = vec![folder("v1", 10), folder("v3", 30), folder("b", 20), folder("a", 20)];
    assert_eq!(release_list(&fs), vec!["v3", "b", "a", "v1"]);
    assert!(release_list(&[]).is_empty());
}

#[test]
fn walks_keep_listing_order_on_ties() {
    let fs = vec![folder("x", 5), folder("y", 7), folder("z", 5)];
    assert_eq!(walk_order(&fs, Walk::Newest, &[0, 1, 2]), vec![1, 0, 2]);
    assert_eq!(walk_order(&fs, Walk::Oldest, &[0, 1, 2]), vec![0, 2, 1]);
    assert_eq!(walk_order(&fs, Walk::NewestByTag, &[0, 1, 2]), vec![1, 2, 0]);
    assert_eq!(walk_order(&fs, Walk::Oldest, &[2, 1]), vec![2, 1]);
}

#[test]
fn count_retention_keeps_newest_and_active() {
    let fs = vec![folder("v1", 1), folder("v2", 2), folder("v3", 3), folder("v4", 4), folder("v5", 5)];
    assert_eq!(tags(&fs, &count_pruned(&fs, "v5", 3)), vec!["v2", "v1"]);
    assert_eq!(tags(&fs, &count_pruned(&fs, "v1", 3)), vec!["v2"]);
    assert!(count_pruned(&fs, "v5", 5).is_empty());
    assert_eq!(tags(&fs, &count_pruned(&fs, "v3", 0)), vec!["v5", "v4", "v2", "v1"]);
}

#[test]
fn retention_policy_by_count_and_age() {
    let now = 100 * NS_PER_DAY;
    let fs = vec![
        folder("old", 10 * NS_PER_DAY),
        folder("mid", 80 * NS_PER_DAY),
        folder("new", 99 * NS_PER_DAY),
        folder("active", 5 * NS_PER_DAY),
    ];
    let by_count = policy_plan(&fs, "active", 2, 0, now);
    assert_eq!(tags(&fs, &by_count.remove), vec!["old"]);
    assert_eq!(tags(&fs, &by_count.keep), vec!["active", "mid", "new"]);
    let by_age = policy_plan(&fs, "active", 0, 30, now);
    assert_eq!(tags(&fs, &by_age.remove), vec!["old"]);
    assert_eq!(tags(&fs, &by_age.keep), vec!["active", "mid", "new"]);
    let both = policy_plan(&fs, "active", 1, 15, now);
    assert_eq!(tags(&fs, &both.remove), vec!["mid", "old"]);
    assert_eq!(tags(&fs, &both.keep), vec!["active", "new"]);
    let none = policy_plan(&fs, "active", 0, 0, now);
    assert!(none.remove.is_empty());
    assert_eq!(none.keep.len(), 4);
}

#[test]
fn disk_limit_walk() {
    assert_eq!(disk_limit(2), 2 * 1024 * 1024);
    assert_eq!(disk_limit(u64::MAX), u64::MAX);
    assert!(matches!(disk_step(10, 10, "v1", "v2"), DiskStep::Stop));
    assert!(matches!(disk_step(11, 10, "v2", "v2"), DiskStep::Skip));
    assert!(matches!(disk_step(11, 10, "v1", "v2"), DiskStep::Remove));
}
