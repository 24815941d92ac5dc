use fusecol::plan::display_schema;
use fusecol::plan::Field;
use fusecol::plan::GraphvizBuilder;
use fusecol::plan::GraphvizVisitor;
use fusecol::plan::IndentVisitor;
use fusecol::plan::PlanNode;
use fusecol::plan::PlanVisitor;
use fusecol::plan::Schema;
use fusecol::plan::u64_to_string;
use fusecol::types::LogicalType;
use fusecol::types::TimeUnit;

#[test]
fn test_display_empty_schema() {
    let schema = Schema::new(vec![]);
    assert_eq!("[]", display_schema(&schema).as_str());
}

#[test]
fn test_display_schema() {
    let schema = Schema::new(vec![
        Field::new("id".to_string(), LogicalType::Int32, false),
        Field::new("first_name".to_string(), LogicalType::Utf8, true),
    ]);

    assert_eq!("[id:Int32, first_name:Utf8;N]", display_schema(&schema).as_str());
}

#[test]
fn test_display_timestamp_with_timezone() {
    let schema = Schema::new(vec![
        Field::new(
            "ts".to_string(),
            LogicalType::Timestamp(TimeUnit::Millisecond, Some(-330)),
            false,
        ),
        Field::new("t2".to_string(), LogicalType::Timestamp(TimeUnit::Second, None), true),
    ]);
    assert_eq!(
        "[ts:Timestamp(Millisecond, Some(-330)), t2:Timestamp(Second, None);N]",
        display_schema(&schema).as_str()
    );
}

#[test]
fn test_u64_to_string() {
    assert_eq!("0", u64_to_string(0).as_str());
    assert_eq!("7", u64_to_string(7).as_str());
    assert_eq!("10", u64_to_string(10).as_str());
    assert_eq!("18446744073709551615", u64_to_string(u64::MAX).as_str());
}

#[test]
fn test_graphviz_quoted() {
    assert_eq!("\"plain\"", GraphvizBuilder::quoted("plain").as_str());
    assert_eq!("\"say _hi_\"", GraphvizBuilder::quoted("say \"hi\"").as_str());
    assert_eq!("\"\"", GraphvizBuilder::quoted("").as_str());
}

fn leaf(label: &str, fields: Vec<Field>) -> PlanNode {
    PlanNode::new(label.to_string(), Schema::new(fields), vec![])
}

#[test]
fn test_indent_visitor_walk() {
    let scan = leaf("CsvScan: employee.csv", vec![]);
    let filter = PlanNode::new("Filter: state".to_string(), Schema::new(vec![]), vec![scan]);
    let plan = PlanNode::new("Projection: id".to_string(), Schema::new(vec![]), vec![filter]);

    let mut visitor = IndentVisitor::new(false);
    let walked = plan.accept(&mut visitor).unwrap();
    assert!(walked);
    assert_eq!(
        "Projection: id\n  Filter: state\n    CsvScan: employee.csv",
        visitor.out.as_str()
    );
}

#[test]
fn test_indent_visitor_with_schema() {
    let node = leaf("Scan", vec![Field::new("id".to_string(), LogicalType::Int32, false)]);
    let mut visitor = IndentVisitor::new(true);
    node.accept(&mut visitor).unwrap();
    assert_eq!("Scan [id:Int32]", visitor.out.as_str());
}

#[test]
fn test_graphviz_visitor_walk() {
    let scan = leaf("Scan", vec![]);
    let plan = PlanNode::new("Projection".to_string(), Schema::new(vec![]), vec![scan]);

    let mut visitor = GraphvizVisitor::new();
    visitor.set_with_schema(false);
    visitor.pre_visit_plan("LogicalPlan");
    plan.accept(&mut visitor).unwrap();
    visitor.post_visit_plan();

    let expected = "  subgraph cluster_1\n  {\n    graph[label=\"LogicalPlan\"]\n    2[shape=box label=\"Projection\"]\n    3[shape=box label=\"Scan\"]\n    2 -> 3 [arrowhead=none, arrowtail=normal, dir=back]\n  }\n";
    assert_eq!(expected, visitor.out.as_str());
}

struct CountingVisitor {
    pre: usize,
    post: usize,
    stop_after: usize,
}

impl PlanVisitor for CountingVisitor {
    type Error = ();

    fn pre_visit(&mut self, _plan: &PlanNode) -> Result<bool, ()> {
        self.pre += 1;
        Ok(self.pre < self.stop_after)
    }

    fn post_visit(&mut self, _plan: &PlanNode) -> Result<bool, ()> {
        self.post += 1;
        Ok(true)
    }
}

#[test]
fn test_accept_early_stop() {
    let plan = PlanNode::new(
        "root".to_string(),
        Schema::new(vec![]),
        vec![leaf("a", vec![]), leaf("b", vec![])],
    );
    let mut visitor = CountingVisitor { pre: 0, post: 0, stop_after: 2 };
    let walked = plan.accept(&mut visitor).unwrap();
    assert!(!walked);
    // the root and its first child are pre-visited; the stop in the first
    // child's pre_visit prevents every later visit
    assert_eq!(2, visitor.pre);
    assert_eq!(0, visitor.post);
}
