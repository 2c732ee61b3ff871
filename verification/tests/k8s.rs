use k8s_version_checker::k8s::{filter_top_level, workload_is_top_level, Owner, Workload};

fn workload(owner_references: Option<Vec<Owner>>, images: &[&str]) -> Workload {
    Workload {
        owner_references,
        container_images: images.iter().map(|s| s.to_string()).collect(),
    }
}

fn owner(name: &str) -> Owner {
    Owner {
        name: name.to_string(),
    }
}

#[test]
fn owned_workloads_are_dropped_and_order_is_kept() {
    let workloads = vec![
        workload(Some(vec![]), &["a", "b"]),
        workload(Some(vec![owner("replicaset")]), &["c"]),
    ];
    assert_eq!(filter_top_level(&workloads), vec!["a", "b"]);
}

#[test]
fn absent_owner_metadata_acts_like_an_empty_list() {
    let with_absent = vec![
        workload(None, &["a", "b"]),
        workload(Some(vec![owner("replicaset")]), &["c"]),
    ];
    let with_empty = vec![
        workload(Some(vec![]), &["a", "b"]),
        workload(Some(vec![owner("replicaset")]), &["c"]),
    ];
    assert_eq!(filter_top_level(&with_absent), filter_top_level(&with_empty));
    assert_eq!(filter_top_level(&with_absent), vec!["a", "b"]);
}

#[test]
fn top_level_predicate_checks_presence_only() {
    assert!(workload_is_top_level(&workload(None, &[])));
    assert!(workload_is_top_level(&workload(Some(vec![]), &["x"])));
    assert!(!workload_is_top_level(&workload(
        Some(vec![owner("deployment")]),
        &["x"]
    )));
}

#[test]
fn images_flatten_across_workloads_without_deduplication() {
    let workloads = vec![
        workload(None, &["nginx:1.21", "shared"]),
        workload(Some(vec![]), &["shared", "k8s.gcr.io/etcd"]),
    ];
    assert_eq!(
        filter_top_level(&workloads),
        vec!["nginx:1.21", "shared", "shared", "k8s.gcr.io/etcd"]
    );
}

#[test]
fn no_workloads_yield_no_images() {
    assert_eq!(filter_top_level(&vec![]), Vec::<String>::new());
}
