use prom_metrics::helpers::NoMetrics;
use prom_metrics::helpers::RegisterableMetric;
use prom_metrics::IntCounter;
use prom_metrics::IntGauge;
use prom_metrics::PromMetricRegistry;
use prom_metrics::RegisterAction;
use std::sync::Arc;

#[derive(Debug, Default)]
struct Met {
    a: IntCounter,
    b: IntCounter,
    c: IntGauge,
}

#[derive(Debug, Default)]
struct Disk {
    reads: IntCounter,
    writes: IntCounter,
}

#[derive(Debug, Default)]
struct Node {
    up: IntGauge,
    disk: Disk,
}

impl RegisterableMetric for Disk {
    fn register(&self, register: &mut RegisterAction<'_>) {
        let mut group = register.group("io");
        group.count("total", &self.reads).attr("dir", "read");
        group.flush();
        let mut group = register.group("io");
        group.count("total", &self.writes).attr("dir", "write");
        group.flush();
    }
}

impl RegisterableMetric for Node {
    fn register(&self, register: &mut RegisterAction<'_>) {
        register.name_prefix("node");
        register.gauge("up", &self.up).flush();
        let mut nested = register.child();
        nested.name_prefix("disk").base_attr("dev", "sda");
        self.disk.register(&mut nested);
    }
}

fn registry_with(key: &str, value: &str) -> PromMetricRegistry {
    PromMetricRegistry::with_base_attributes(vec![(key.to_string(), value.to_string())])
}

fn bare_registry() -> PromMetricRegistry {
    PromMetricRegistry::with_base_attributes(Vec::new())
}

fn count_lines_starting(text: &str, start: &str) -> usize {
    text.lines().filter(|line| line.starts_with(start)).count()
}

#[test]
fn metrics_test() {
    let met = Arc::new(Met::default());
    let mut reg = PromMetricRegistry::new();
    reg.base_attr("prefix", "set");

    reg.register_fn(&met, |m, reg| {
        reg.name_prefix("base_prefix");

        let mut group = reg.group("prefix");
        group.count("a", &m.a).count("b", &m.b).attr("test", "2");
        group.flush();

        reg.gauge("c", &m.c).flush();
    });

    println!("{}", reg.render());
}

#[test]
fn group_renders_prefix_and_late_attribute() {
    let met = Arc::new(Met::default());
    let mut reg = registry_with("prefix", "set");
    met.a.inc_by(7);
    met.b.inc();
    met.c.set(3);

    reg.register_fn(&met, |m, reg| {
        reg.name_prefix("base_prefix");
        let mut group = reg.group("prefix");
        group.count("a", &m.a).count("b", &m.b).attr("test", "2");
        group.flush();
        reg.gauge("c", &m.c).flush();
    });

    let expected = "# HELP base_prefix_c\n\
                    # TYPE base_prefix_c gauge\n\
                    base_prefix_c{prefix=\"set\"} 3\n\
                    # HELP base_prefix_prefix_a\n\
                    # TYPE base_prefix_prefix_a counter\n\
                    base_prefix_prefix_a{prefix=\"set\",test=\"2\"} 7\n\
                    # HELP base_prefix_prefix_b\n\
                    # TYPE base_prefix_prefix_b counter\n\
                    base_prefix_prefix_b{prefix=\"set\",test=\"2\"} 1\n";
    assert_eq!(reg.render(), expected);
}

#[test]
fn empty_registry_renders_nothing() {
    let reg = bare_registry();
    assert_eq!(reg.len(), 0);
    assert_eq!(reg.render(), "");
    assert_eq!(reg.render_with(&Vec::new()), "");
    let reg = PromMetricRegistry::new();
    assert_eq!(reg.render(), "");
    let reg = PromMetricRegistry::default();
    assert_eq!(reg.render(), "");
}

#[test]
fn registering_no_metrics_renders_nothing() {
    let none = Arc::new(NoMetrics);
    let mut reg = registry_with("k", "v");
    reg.register(&none);
    assert_eq!(reg.len(), 0);
    assert_eq!(reg.render(), "");
}

#[test]
fn metric_without_attributes_has_no_braces() {
    let met = Arc::new(Met::default());
    met.a.inc_by(42);
    let mut reg = bare_registry();
    reg.register_fn(&met, |m, reg| {
        reg.count("plain", &m.a).flush();
    });
    assert_eq!(reg.render(), "# HELP plain\n# TYPE plain counter\nplain 42\n");
    assert!(!reg.render().contains('{'));
    assert!(!reg.render().contains('}'));
}

#[test]
fn single_attribute_closes_its_brace() {
    let met = Arc::new(Met::default());
    let mut reg = bare_registry();
    reg.register_fn(&met, |m, reg| {
        let mut group = reg.empty();
        group.gauge("g", &m.c).attr("only", "1");
        group.flush();
    });
    assert_eq!(reg.render(), "# HELP g\n# TYPE g gauge\ng{only=\"1\"} 0\n");
}

#[test]
fn three_attributes_are_comma_joined_in_insertion_order() {
    let met = Arc::new(Met::default());
    let mut reg = registry_with("base", "0");
    reg.register_fn(&met, |m, reg| {
        reg.base_attr("ctx", "1");
        let mut group = reg.empty();
        group.attr("own", "2").count("n", &m.a);
        group.flush();
    });
    assert_eq!(
        reg.render(),
        "# HELP n\n# TYPE n counter\nn{base=\"0\",ctx=\"1\",own=\"2\"} 0\n"
    );
}

#[test]
fn duplicate_attribute_keys_are_kept() {
    let met = Arc::new(Met::default());
    let mut reg = registry_with("k", "a");
    reg.register_fn(&met, |m, reg| {
        let mut group = reg.empty();
        group.count("n", &m.a).attr("k", "b");
        group.flush();
    });
    assert_eq!(reg.render(), "# HELP n\n# TYPE n counter\nn{k=\"a\",k=\"b\"} 0\n");
}

#[test]
fn same_name_and_kind_share_one_block() {
    let node = Arc::new(Node::default());
    node.disk.reads.inc_by(5);
    node.disk.writes.inc_by(9);
    node.up.set(1);
    let mut reg = bare_registry();
    reg.register(&node);
    let expected = "# HELP node_disk_io_total\n\
                    # TYPE node_disk_io_total counter\n\
                    node_disk_io_total{dev=\"sda\",dir=\"read\"} 5\n\
                    node_disk_io_total{dev=\"sda\",dir=\"write\"} 9\n\
                    # HELP node_up\n\
                    # TYPE node_up gauge\n\
                    node_up 1\n";
    assert_eq!(reg.render(), expected);
}

#[test]
fn blocks_do_not_depend_on_registration_order() {
    let first = Arc::new(Met::default());
    let second = Arc::new(Met::default());
    let third = Arc::new(Met::default());

    let mut forward = bare_registry();
    forward.register_fn(&first, |m, reg| {
        reg.count("x", &m.a).flush();
        reg.gauge("y", &m.c).flush();
    });
    forward.register_fn(&second, |m, reg| {
        reg.count("x", &m.a).flush();
        reg.count("a", &m.b).flush();
    });
    forward.register_fn(&third, |m, reg| {
        reg.gauge("x", &m.c).flush();
    });

    let mut backward = bare_registry();
    backward.register_fn(&third, |m, reg| {
        reg.gauge("x", &m.c).flush();
    });
    backward.register_fn(&second, |m, reg| {
        reg.count("a", &m.b).flush();
        reg.count("x", &m.a).flush();
    });
    backward.register_fn(&first, |m, reg| {
        reg.gauge("y", &m.c).flush();
        reg.count("x", &m.a).flush();
    });

    let expected = "# HELP a\n# TYPE a counter\na 0\n\
                    # HELP x\n# TYPE x counter\nx 0\nx 0\n\
                    # HELP x\n# TYPE x gauge\nx 0\n\
                    # HELP y\n# TYPE y gauge\ny 0\n";
    assert_eq!(forward.render(), expected);
    assert_eq!(backward.render(), expected);
    assert_eq!(count_lines_starting(&forward.render(), "# HELP "), 4);
    assert_eq!(count_lines_starting(&forward.render(), "# TYPE "), 4);
}

#[test]
fn counter_sorts_before_gauge_of_the_same_name() {
    let met = Arc::new(Met::default());
    let mut reg = bare_registry();
    reg.register_fn(&met, |m, reg| {
        reg.gauge("same", &m.c).flush();
        reg.count("same", &m.a).flush();
    });
    assert_eq!(
        reg.render(),
        "# HELP same\n# TYPE same counter\nsame 0\n# HELP same\n# TYPE same gauge\nsame 0\n"
    );
}

#[test]
fn metrics_of_one_key_keep_their_registration_order() {
    let met = Arc::new(Met::default());
    met.a.inc_by(1);
    met.b.inc_by(2);
    let mut reg = bare_registry();
    reg.register_fn(&met, |m, reg| {
        let mut group = reg.empty();
        group.count("n", &m.a).attr("i", "first");
        group.flush();
        let mut group = reg.empty();
        group.count("m", &m.a);
        group.flush();
        let mut group = reg.empty();
        group.count("n", &m.b).attr("i", "second");
        group.flush();
    });
    let expected = "# HELP m\n# TYPE m counter\nm 1\n\
                    # HELP n\n# TYPE n counter\nn{i=\"first\"} 1\nn{i=\"second\"} 2\n";
    assert_eq!(reg.render(), expected);
}

#[test]
fn names_sort_by_their_bytes() {
    let met = Arc::new(Met::default());
    let mut reg = bare_registry();
    reg.register_fn(&met, |m, reg| {
        let mut group = reg.empty();
        group
            .count("b", &m.a)
            .count("a_b", &m.a)
            .count("a", &m.a)
            .count("B", &m.a)
            .count("\u{e9}", &m.a)
            .count("ab", &m.a)
            .count("", &m.a)
            .count("z", &m.a);
        group.flush();
    });
    let text = reg.render();
    let names: Vec<&str> = text
        .lines()
        .filter(|line| line.starts_with("# HELP "))
        .map(|line| &line[7..])
        .collect();
    assert_eq!(names, vec!["", "B", "a", "a_b", "ab", "b", "z", "\u{e9}"]);
}

#[test]
fn name_prefix_joins_onto_the_existing_prefix() {
    let met = Arc::new(Met::default());
    let mut reg = bare_registry();
    reg.register_fn(&met, |m, reg| {
        reg.name_prefix("outer").name_prefix("inner");
        reg.count("n", &m.a).flush();
    });
    assert_eq!(
        reg.render(),
        "# HELP outer_inner_n\n# TYPE outer_inner_n counter\nouter_inner_n 0\n"
    );
}

#[test]
fn group_without_context_prefix_uses_its_own() {
    let met = Arc::new(Met::default());
    let mut reg = bare_registry();
    reg.register_fn(&met, |m, reg| {
        let mut group = reg.group("only");
        group.count("n", &m.a);
        group.flush();
    });
    assert_eq!(reg.render(), "# HELP only_n\n# TYPE only_n counter\nonly_n 0\n");
}

#[test]
fn start_with_and_without_segment() {
    let met = Arc::new(Met::default());
    let mut reg = bare_registry();
    reg.register_fn(&met, |m, reg| {
        reg.name_prefix("p");
        let mut group = reg.start(Some("q"));
        group.count("a", &m.a);
        group.flush();
        let mut group = reg.start(None);
        group.count("b", &m.b);
        group.flush();
    });
    assert_eq!(
        reg.render(),
        "# HELP p_b\n# TYPE p_b counter\np_b 0\n# HELP p_q_a\n# TYPE p_q_a counter\np_q_a 0\n"
    );
}

#[test]
fn child_does_not_leak_into_its_parent() {
    let met = Arc::new(Met::default());
    let mut reg = bare_registry();
    reg.register_fn(&met, |m, reg| {
        reg.name_prefix("parent");
        {
            let mut nested = reg.child();
            nested.name_prefix("child").base_attr("where", "inner");
            nested.count("a", &m.a).flush();
        }
        reg.count("b", &m.b).flush();
    });
    let expected = "# HELP parent_b\n# TYPE parent_b counter\nparent_b 0\n\
                    # HELP parent_child_a\n# TYPE parent_child_a counter\n\
                    parent_child_a{where=\"inner\"} 0\n";
    assert_eq!(reg.render(), expected);
}

#[test]
fn group_dropped_without_flush_registers_nothing() {
    let met = Arc::new(Met::default());
    let mut reg = bare_registry();
    reg.register_fn(&met, |m, reg| {
        let mut group = reg.group("lost");
        group.count("a", &m.a);
    });
    assert_eq!(reg.len(), 0);
    assert_eq!(reg.render(), "");
}

#[test]
fn attribute_values_are_not_escaped() {
    let met = Arc::new(Met::default());
    let mut reg = bare_registry();
    reg.register_fn(&met, |m, reg| {
        let mut group = reg.empty();
        group.count("n", &m.a).attr("q", "a\"b");
        group.flush();
    });
    assert_eq!(reg.render(), "# HELP n\n# TYPE n counter\nn{q=\"a\"b\"} 0\n");
}

#[test]
fn render_reflects_later_updates() {
    let met = Arc::new(Met::default());
    let mut reg = bare_registry();
    reg.register_fn(&met, |m, reg| {
        reg.count("n", &m.a).flush();
    });
    assert_eq!(reg.render(), "# HELP n\n# TYPE n counter\nn 0\n");
    met.a.inc_by(10);
    assert_eq!(reg.render(), "# HELP n\n# TYPE n counter\nn 10\n");
    assert_eq!(reg.snapshot(), vec![10]);
}

#[test]
fn render_with_uses_the_given_values() {
    let met = Arc::new(Met::default());
    let mut reg = bare_registry();
    reg.register_fn(&met, |m, reg| {
        reg.count("n", &m.a).flush();
        reg.gauge("g", &m.c).flush();
    });
    assert_eq!(
        reg.render_with(&vec![u64::MAX, 100]),
        "# HELP g\n# TYPE g gauge\ng 18446744073709551615\n# HELP n\n# TYPE n counter\nn 100\n"
    );
}

#[test]
fn registry_keeps_the_metrics_alive() {
    let met = Arc::new(Met::default());
    let mut reg = bare_registry();
    assert_eq!(Arc::strong_count(&met), 1);
    reg.register_fn(&met, |m, reg| {
        reg.count("n", &m.a).flush();
    });
    assert_eq!(Arc::strong_count(&met), 2);
    let handle = Arc::clone(&met);
    drop(met);
    handle.a.inc_by(3);
    assert_eq!(reg.render(), "# HELP n\n# TYPE n counter\nn 3\n");
    drop(handle);
    assert_eq!(reg.render(), "# HELP n\n# TYPE n counter\nn 3\n");
}

#[test]
fn metric_on_a_bare_cell() {
    let cell = Arc::new(std::sync::atomic::AtomicU64::new(12));
    let met = Arc::new(Met::default());
    let mut reg = bare_registry();
    reg.register_fn(&met, |_, reg| {
        reg.metric("raw", &cell, prom_metrics::MetricType::IntGauge).flush();
        let mut group = reg.group("g");
        group.metric("raw", &cell, prom_metrics::MetricType::IntCounter);
        group.flush();
    });
    assert_eq!(
        reg.render(),
        "# HELP g_raw\n# TYPE g_raw counter\ng_raw 12\n# HELP raw\n# TYPE raw gauge\nraw 12\n"
    );
}

#[test]
fn package_attributes_name_program_and_version() {
    let attributes = prom_metrics::registry::package_attributes(Some(("tool", "1.2.3")));
    assert_eq!(
        attributes,
        vec![
            ("program".to_string(), "tool".to_string()),
            ("pkg_version".to_string(), "1.2.3".to_string()),
        ]
    );
    assert_eq!(prom_metrics::registry::package_attributes(None), Vec::new());
}

#[test]
fn base_attributes_come_first() {
    let met = Arc::new(Met::default());
    let mut reg = PromMetricRegistry::with_base_attributes(
        prom_metrics::registry::package_attributes(Some(("tool", "0.1.0"))),
    );
    reg.register_fn(&met, |m, reg| {
        let mut group = reg.empty();
        group.count("n", &m.a).attr("x", "y");
        group.flush();
    });
    assert_eq!(
        reg.render(),
        "# HELP n\n# TYPE n counter\nn{program=\"tool\",pkg_version=\"0.1.0\",x=\"y\"} 0\n"
    );
}
