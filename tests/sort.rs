use chadtop::catalog::{build_catalog, filter_procs};
use chadtop::cpu::{with_overall, CpuUsage};
use chadtop::process::{contains_pid, Proc};
use chadtop::sort::{compare, sort_procs, AccentColor, ProcessSortStrategy};

fn proc_of(pid: u32, name: Option<&str>) -> Proc {
    Proc {
        name: name.map(|n| n.to_string()),
        cmd: None,
        exe: None,
        pid,
        cwd: None,
        memory: 0,
        ppid: None,
        start_time: 0,
        run_time: 0,
        cpu_usage: Some(0),
        disk_usage_read: 0,
        disk_usage_written: 0,
        user: None,
        open_files: None,
        open_files_limit: None,
    }
}

fn names(ps: &[Proc]) -> Vec<String> {
    ps.iter().map(|p| p.name.clone().unwrap_or_default()).collect()
}

fn pids(ps: &[Proc]) -> Vec<u32> {
    ps.iter().map(|p| p.pid).collect()
}

fn hundredths(percent: f32) -> Option<u32> {
    if percent.is_nan() {
        None
    } else {
        Some((percent * 100.0).round() as u32)
    }
}

#[test]
fn cpu_usage_sorts_highest_first() {
    let mut a = proc_of(1, Some("A"));
    let mut b = proc_of(2, Some("B"));
    let mut c = proc_of(3, Some("C"));
    a.cpu_usage = hundredths(10.0);
    b.cpu_usage = hundredths(90.0);
    c.cpu_usage = hundredths(50.0);
    let sorted = sort_procs(ProcessSortStrategy::CpuUsage, &vec![a, b, c]);
    assert_eq!(names(&sorted), vec!["B", "C", "A"]);
    assert_eq!(sorted[0].cpu_usage, Some(9000));
    assert_eq!(sorted[1].cpu_usage, Some(5000));
    assert_eq!(sorted[2].cpu_usage, Some(1000));
}

#[test]
fn cpu_reading_that_is_not_a_number_sorts_last() {
    let mut a = proc_of(1, Some("A"));
    let mut b = proc_of(2, Some("B"));
    let mut c = proc_of(3, Some("C"));
    a.cpu_usage = hundredths(f32::NAN);
    b.cpu_usage = hundredths(0.0);
    c.cpu_usage = hundredths(3.5);
    let sorted = sort_procs(ProcessSortStrategy::CpuUsage, &vec![a, b, c]);
    assert_eq!(names(&sorted), vec!["C", "B", "A"]);
}

#[test]
fn memory_sorts_highest_first_and_ties_keep_order() {
    let mut ps = Vec::new();
    for (pid, mem) in [(1u32, 10u64), (2, 30), (3, 10), (4, 20), (5, 30)] {
        let mut p = proc_of(pid, Some("x"));
        p.memory = mem;
        ps.push(p);
    }
    let sorted = sort_procs(ProcessSortStrategy::Memory, &ps);
    assert_eq!(pids(&sorted), vec![2, 5, 4, 1, 3]);
}

#[test]
fn pid_and_ppid_sort_ascending_absent_parent_first() {
    let mut ps = Vec::new();
    for (pid, ppid) in [(30u32, Some(1u32)), (10, None), (20, Some(0)), (5, Some(1))] {
        let mut p = proc_of(pid, Some("x"));
        p.ppid = ppid;
        ps.push(p);
    }
    assert_eq!(pids(&sort_procs(ProcessSortStrategy::Pid, &ps)), vec![5, 10, 20, 30]);
    assert_eq!(pids(&sort_procs(ProcessSortStrategy::Ppid, &ps)), vec![10, 20, 30, 5]);
}

#[test]
fn user_sorts_lexicographically_absent_as_empty() {
    let mut ps = Vec::new();
    for (pid, user) in [(1u32, Some("root")), (2, None), (3, Some("alice")), (4, Some("")), (5, Some("Zoe"))] {
        let mut p = proc_of(pid, Some("x"));
        p.user = user.map(|u| u.to_string());
        ps.push(p);
    }
    assert_eq!(pids(&sort_procs(ProcessSortStrategy::User, &ps)), vec![2, 4, 5, 3, 1]);
}

#[test]
fn alphabetical_is_case_sensitive_and_stable() {
    let ps = vec![
        proc_of(1, Some("bash")),
        proc_of(2, Some("Xorg")),
        proc_of(3, Some("bash")),
        proc_of(4, None),
        proc_of(5, Some("a")),
    ];
    let sorted = sort_procs(ProcessSortStrategy::Alphabetical, &ps);
    assert_eq!(pids(&sorted), vec![4, 2, 5, 1, 3]);
}

#[test]
fn every_strategy_orders_by_its_comparator_with_ties_in_input_order() {
    let mut ps = Vec::new();
    for i in 0..40u32 {
        let mut p = proc_of((i * 37) % 41, Some(["sh", "bash", "init", "Xorg"][(i % 4) as usize]));
        p.memory = ((i * 13) % 7) as u64;
        p.cpu_usage = if i % 9 == 0 { None } else { Some((i * 7) % 5) };
        p.ppid = if i % 6 == 0 { None } else { Some(i % 3) };
        p.user = if i % 5 == 0 { None } else { Some(["root", "alice"][(i % 2) as usize].to_string()) };
        p.start_time = i as u64;
        ps.push(p);
    }
    let mut s = ProcessSortStrategy::User;
    for _ in 0..6 {
        let sorted = sort_procs(s, &ps);
        assert_eq!(sorted.len(), ps.len());
        let mut seen: Vec<u64> = sorted.iter().map(|p| p.start_time).collect();
        seen.sort();
        assert_eq!(seen, (0..40u64).collect::<Vec<_>>());
        for w in 0..sorted.len() - 1 {
            let c = compare(s, &sorted[w], &sorted[w + 1]);
            assert!(c <= 0);
            if c == 0 {
                assert!(sorted[w].start_time < sorted[w + 1].start_time);
            }
        }
        s = s.next();
    }
}

#[test]
fn filter_keeps_names_with_the_prefix_in_order() {
    let ps = vec![
        proc_of(1, Some("bash")),
        proc_of(2, Some("bat")),
        proc_of(3, Some("cat")),
        proc_of(4, Some("dash")),
        proc_of(5, None),
    ];
    assert_eq!(names(&filter_procs(&ps, "ba")), vec!["bash", "bat"]);
    assert_eq!(filter_procs(&ps, "").len(), 5);
    assert_eq!(filter_procs(&ps, "zzz").len(), 0);
}

#[test]
fn catalog_filters_then_sorts() {
    let mut ps = vec![
        proc_of(1, Some("bash")),
        proc_of(2, Some("bat")),
        proc_of(3, Some("cat")),
        proc_of(4, Some("dash")),
    ];
    ps[0].memory = 5;
    ps[1].memory = 9;
    ps[2].memory = 100;
    let rows = build_catalog(&ps, "ba", ProcessSortStrategy::Memory);
    assert_eq!(names(&rows), vec!["bat", "bash"]);
    let all = build_catalog(&ps, "", ProcessSortStrategy::Memory);
    assert_eq!(names(&all), vec!["cat", "bat", "bash", "dash"]);
}

#[test]
fn lookup_by_pid() {
    let ps = vec![proc_of(3, Some("a")), proc_of(9, Some("b"))];
    assert!(contains_pid(&ps, 9));
    assert!(!contains_pid(&ps, 4));
    assert!(!contains_pid(&Vec::new(), 3));
}

#[test]
fn strategies_have_labels_and_colors() {
    assert_eq!(ProcessSortStrategy::CpuUsage.label(), "cpu usage");
    assert_eq!(ProcessSortStrategy::Alphabetical.label(), "name");
    assert_eq!(ProcessSortStrategy::User.get_color(), AccentColor::Cyan);
    assert_eq!(ProcessSortStrategy::Memory.get_color(), AccentColor::LightMagenta);
    assert_eq!(ProcessSortStrategy::Memory.next(), ProcessSortStrategy::User);
}

#[test]
fn overall_cpu_figure_comes_first() {
    let cores = vec![
        CpuUsage { name: "cpu0".to_string(), usage: 1250 },
        CpuUsage { name: "cpu1".to_string(), usage: 50 },
    ];
    let cpus = with_overall(650, cores);
    assert_eq!(cpus.len(), 3);
    assert_eq!(cpus[0].name, "overall");
    assert_eq!(cpus[0].usage, 650);
    assert_eq!(cpus[1].name, "cpu0");
    assert_eq!(cpus[2].usage, 50);
}

#[test]
fn filtering_the_unfiltered_catalog_gives_the_filtered_catalog() {
    let names_list = ["bash", "bat", "cat", "dash", "bash", "ba", "b"];
    let mut ps = Vec::new();
    for (i, n) in names_list.iter().enumerate() {
        let mut p = proc_of(i as u32 * 3 % 7, Some(n));
        p.memory = (i as u64 * 5) % 3;
        p.cpu_usage = Some((i as u32 * 11) % 4);
        ps.push(p);
    }
    let mut s = ProcessSortStrategy::User;
    for _ in 0..6 {
        let all = build_catalog(&ps, "", s);
        let kept: Vec<u32> = all
            .iter()
            .filter(|p| p.name.as_deref().unwrap_or("").starts_with("ba"))
            .map(|p| p.pid)
            .collect();
        assert_eq!(pids(&build_catalog(&ps, "ba", s)), kept);
        s = s.next();
    }
}
