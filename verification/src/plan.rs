//! Plan-tree pretty printing: a visitor protocol over plan nodes
//! (pre-order, then post-order, stopping early on `false` or an error), an
//! indenting one-line-per-node printer, and a DOT-language printer for
//! graphical display, all rendering into owned strings.

use vstd::prelude::*;
use vstd::string::StringExecFns;
use vstd::string::StrSliceExecFns;

use crate::types::IntervalUnit;
use crate::types::LogicalType;
use crate::types::TimeUnit;

verus! {

/// One column of a schema: a name, a type and whether rows may be null.
pub struct Field {
    pub name: String,
    pub data_type: LogicalType,
    pub nullable: bool,
}

impl Field {
    /// A new field.
    pub fn new(name: String, data_type: LogicalType, nullable: bool) -> (r: Field)
        ensures
            r.name == name,
            r.data_type == data_type,
            r.nullable == nullable,
    {
        Field { name, data_type, nullable }
    }
}

/// An ordered list of fields.
pub struct Schema {
    pub fields: Vec<Field>,
}

impl Schema {
    /// A new schema over the given fields.
    pub fn new(fields: Vec<Field>) -> (r: Schema)
        ensures
            r.fields == fields,
    {
        Schema { fields }
    }
}

/// The display name of a time unit.
pub open spec fn unit_label_spec(u: TimeUnit) -> Seq<char> {
    match u {
        TimeUnit::Second => "Second"@,
        TimeUnit::Millisecond => "Millisecond"@,
        TimeUnit::Microsecond => "Microsecond"@,
        TimeUnit::Nanosecond => "Nanosecond"@,
    }
}

/// The decimal digits of a signed number, a minus sign first when negative.
pub open spec fn int_digits(n: int) -> Seq<char> {
    if n < 0 {
        "-"@ + dec_digits(-n)
    } else {
        dec_digits(n)
    }
}

/// The display text of a timestamp's timezone: the fixed offset in minutes,
/// or `None`.
pub open spec fn tz_label_spec(tz: Option<i32>) -> Seq<char> {
    match tz {
        None => "None"@,
        Some(m) => "Some("@ + int_digits(m as int) + ")"@,
    }
}

/// The display name of a logical type; a timestamp shows its unit and its
/// timezone.
pub open spec fn type_label_spec(lt: LogicalType) -> Seq<char> {
    match lt {
        LogicalType::Int8 => "Int8"@,
        LogicalType::Int16 => "Int16"@,
        LogicalType::Int32 => "Int32"@,
        LogicalType::Int64 => "Int64"@,
        LogicalType::UInt8 => "UInt8"@,
        LogicalType::UInt16 => "UInt16"@,
        LogicalType::UInt32 => "UInt32"@,
        LogicalType::UInt64 => "UInt64"@,
        LogicalType::Float32 => "Float32"@,
        LogicalType::Float64 => "Float64"@,
        LogicalType::Boolean => "Boolean"@,
        LogicalType::Utf8 => "Utf8"@,
        LogicalType::Binary => "Binary"@,
        LogicalType::Date32 => "Date32"@,
        LogicalType::Date64 => "Date64"@,
        LogicalType::Timestamp(u, tz) => "Timestamp("@ + unit_label_spec(u) + ", "@
            + tz_label_spec(tz) + ")"@,
        LogicalType::Interval(IntervalUnit::YearMonth) => "Interval(YearMonth)"@,
        LogicalType::Interval(IntervalUnit::DayTime) => "Interval(DayTime)"@,
    }
}

/// The display name of a time unit.
fn unit_label(u: &TimeUnit) -> (r: &'static str)
    ensures
        r@ == unit_label_spec(*u),
{
    match u {
        TimeUnit::Second => "Second",
        TimeUnit::Millisecond => "Millisecond",
        TimeUnit::Microsecond => "Microsecond",
        TimeUnit::Nanosecond => "Nanosecond",
    }
}

/// The decimal digits of a signed number, a minus sign first when negative.
pub fn i64_to_string(n: i64) -> (r: String)
    ensures
        r@ == int_digits(n as int),
{
    if n >= 0 {
        u64_to_string(n as u64)
    } else {
        let mut s = String::from_str("-");
        let mag: u64 = (-(n + 1)) as u64 + 1;
        proof {
            assert(mag as int == -(n as int));
        }
        let digits = u64_to_string(mag);
        s.append(digits.as_str());
        s
    }
}

/// The display name of a logical type; a timestamp shows its unit and its
/// timezone.
pub fn type_label(lt: &LogicalType) -> (r: String)
    ensures
        r@ == type_label_spec(*lt),
{
    match lt {
        LogicalType::Int8 => String::from_str("Int8"),
        LogicalType::Int16 => String::from_str("Int16"),
        LogicalType::Int32 => String::from_str("Int32"),
        LogicalType::Int64 => String::from_str("Int64"),
        LogicalType::UInt8 => String::from_str("UInt8"),
        LogicalType::UInt16 => String::from_str("UInt16"),
        LogicalType::UInt32 => String::from_str("UInt32"),
        LogicalType::UInt64 => String::from_str("UInt64"),
        LogicalType::Float32 => String::from_str("Float32"),
        LogicalType::Float64 => String::from_str("Float64"),
        LogicalType::Boolean => String::from_str("Boolean"),
        LogicalType::Utf8 => String::from_str("Utf8"),
        LogicalType::Binary => String::from_str("Binary"),
        LogicalType::Date32 => String::from_str("Date32"),
        LogicalType::Date64 => String::from_str("Date64"),
        LogicalType::Timestamp(u, tz) => {
            let mut s = String::from_str("Timestamp(");
            s.append(unit_label(u));
            s.append(", ");
            match tz {
                None => s.append("None"),
                Some(m) => {
                    s.append("Some(");
                    let digits = i64_to_string(*m as i64);
                    s.append(digits.as_str());
                    s.append(")");
                },
            }
            s.append(")");
            proof {
                assert(s@ =~= type_label_spec(*lt));
            }
            s
        },
        LogicalType::Interval(IntervalUnit::YearMonth) => String::from_str("Interval(YearMonth)"),
        LogicalType::Interval(IntervalUnit::DayTime) => String::from_str("Interval(DayTime)"),
    }
}

/// The display text of one field: `name:Type`, with `;N` when nullable.
pub open spec fn field_text(f: Field) -> Seq<char> {
    f.name@ + ":"@ + type_label_spec(f.data_type) + (if f.nullable {
        ";N"@
    } else {
        Seq::<char>::empty()
    })
}

/// The display text of the first `n` fields, separated by `, `.
pub open spec fn schema_text(fields: Seq<Field>, n: int) -> Seq<char>
    decreases n,
{
    if n <= 0 {
        Seq::empty()
    } else if n == 1 {
        field_text(fields[0])
    } else {
        schema_text(fields, n - 1) + ", "@ + field_text(fields[n - 1])
    }
}

/// Summarize a schema on one line: the fields bracketed, comma-separated,
/// each as `name:Type` with `;N` marking a nullable field.
pub fn display_schema(schema: &Schema) -> (r: String)
    ensures
        r@ == "["@ + schema_text(schema.fields@, schema.fields@.len() as int) + "]"@,
{
    let mut out = String::from_str("[");
    let n = schema.fields.len();
    let mut i: usize = 0;
    while i < n
        invariant
            n == schema.fields@.len(),
            i <= n,
            out@ == "["@ + schema_text(schema.fields@, i as int),
        decreases n - i,
    {
        if i > 0 {
            out.append(", ");
        }
        let f = &schema.fields[i];
        out.append(f.name.as_str());
        out.append(":");
        let tl = type_label(&f.data_type);
        out.append(tl.as_str());
        if f.nullable {
            out.append(";N");
        }
        proof {
            assert(out@ =~= "["@ + schema_text(schema.fields@, i + 1));
        }
        i = i + 1;
    }
    out.append("]");
    proof {
        assert(out@ =~= "["@ + schema_text(schema.fields@, n as int) + "]"@);
    }
    out
}

/// The decimal digit character for a value below ten.
pub open spec fn digit_char(d: int) -> char {
    if d == 0 {
        '0'
    } else if d == 1 {
        '1'
    } else if d == 2 {
        '2'
    } else if d == 3 {
        '3'
    } else if d == 4 {
        '4'
    } else if d == 5 {
        '5'
    } else if d == 6 {
        '6'
    } else if d == 7 {
        '7'
    } else if d == 8 {
        '8'
    } else {
        '9'
    }
}

/// The decimal digits of a number, most significant first.
pub open spec fn dec_digits(n: int) -> Seq<char>
    decreases n,
{
    if n < 10 {
        seq![digit_char(n)]
    } else {
        dec_digits(n / 10) + seq![digit_char(n % 10)]
    }
}

/// The decimal digit below ten, as a string.
fn digit_str(d: u64) -> (r: &'static str)
    requires
        d < 10,
    ensures
        r@ == seq![digit_char(d as int)],
{
    let r: &'static str = match d {
        0 => "0",
        1 => "1",
        2 => "2",
        3 => "3",
        4 => "4",
        5 => "5",
        6 => "6",
        7 => "7",
        8 => "8",
        _ => "9",
    };
    proof {
        reveal_strlit("0");
        reveal_strlit("1");
        reveal_strlit("2");
        reveal_strlit("3");
        reveal_strlit("4");
        reveal_strlit("5");
        reveal_strlit("6");
        reveal_strlit("7");
        reveal_strlit("8");
        reveal_strlit("9");
        assert(r@ =~= seq![digit_char(d as int)]);
    }
    r
}

/// The decimal digits of a number, most significant first.
pub fn u64_to_string(n: u64) -> (r: String)
    ensures
        r@ == dec_digits(n as int),
    decreases n,
{
    if n < 10 {
        String::from_str(digit_str(n))
    } else {
        let mut prefix = u64_to_string(n / 10);
        prefix.append(digit_str(n % 10));
        prefix
    }
}

/// A quoted label: the text wrapped in double quotes, every inner double
/// quote replaced by an underscore.
pub open spec fn quoted_text(s: Seq<char>) -> Seq<char> {
    seq!['"'] + s.map_values(
        |c: char|
            if c == '"' {
                '_'
            } else {
                c
            },
    ) + seq!['"']
}

/// One node of a query plan: a display label, the schema of its output, and
/// its child nodes.
pub struct PlanNode {
    pub label: String,
    pub schema: Schema,
    pub children: Vec<PlanNode>,
}

impl PlanNode {
    /// A new plan node.
    pub fn new(label: String, schema: Schema, children: Vec<PlanNode>) -> (r: PlanNode)
        ensures
            r.label == label,
            r.schema == schema,
            r.children == children,
    {
        PlanNode { label, schema, children }
    }

    /// The node's display label.
    pub fn display(&self) -> (r: &str)
        ensures
            r@ == self.label@,
    {
        self.label.as_str()
    }

    /// Walk the tree depth first: `pre_visit` before a node's children,
    /// `post_visit` after them. `Ok(false)` or an error from either stops the
    /// walk immediately and is returned.
    pub fn accept<V: PlanVisitor>(&self, visitor: &mut V) -> Result<bool, V::Error>
        decreases *self,
    {
        match visitor.pre_visit(self) {
            Err(e) => {
                return Err(e);
            },
            Ok(false) => {
                return Ok(false);
            },
            Ok(true) => {},
        }
        let n = self.children.len();
        let mut i: usize = 0;
        while i < n
            invariant
                n == self.children@.len(),
                i <= n,
            decreases n - i,
        {
            match self.children[i].accept(visitor) {
                Err(e) => {
                    return Err(e);
                },
                Ok(false) => {
                    return Ok(false);
                },
                Ok(true) => {},
            }
            i = i + 1;
        }
        visitor.post_visit(self)
    }
}

/// The visitor protocol for a depth-first walk of plan nodes: `pre_visit` is
/// called before a node's children, `post_visit` after them; returning
/// `Ok(false)` or an error stops the walk.
pub trait PlanVisitor {
    /// The type of error the visitor returns.
    type Error;

    /// Called on a node before any of its children.
    fn pre_visit(&mut self, plan: &PlanNode) -> Result<bool, Self::Error>;

    /// Called on a node after all of its children; by default the walk just
    /// continues.
    fn post_visit(&mut self, plan: &PlanNode) -> Result<bool, Self::Error> {
        Ok(true)
    }
}

/// The bracketed one-line schema summary, as [`display_schema`] renders it.
pub open spec fn schema_summary(s: Schema) -> Seq<char> {
    "["@ + schema_text(s.fields@, s.fields@.len() as int) + "]"@
}

/// Two spaces of indentation for each level.
pub open spec fn indent_spaces(n: int) -> Seq<char>
    decreases n,
{
    if n <= 0 {
        Seq::empty()
    } else {
        indent_spaces(n - 1) + "  "@
    }
}

/// The line the indenting printer appends for one node: a line break above
/// every non-root node, the indentation, the label, and the schema summary
/// when requested.
pub open spec fn indent_line(indent: int, with_schema: bool, plan: PlanNode) -> Seq<char> {
    (if indent > 0 {
        "\n"@
    } else {
        Seq::<char>::empty()
    }) + indent_spaces(indent) + plan.label@ + (if with_schema {
        " "@ + schema_summary(plan.schema)
    } else {
        Seq::<char>::empty()
    })
}

/// Renders a plan with a single line per node, children indented under their
/// parent, optionally with each node's schema summary.
pub struct IndentVisitor {
    pub out: String,
    pub with_schema: bool,
    pub indent: u32,
}

impl IndentVisitor {
    /// A visitor that renders into an empty buffer; with `with_schema`, each
    /// line carries the node's schema summary.
    pub fn new(with_schema: bool) -> (r: IndentVisitor)
        ensures
            r.out@ == Seq::<char>::empty(),
            r.with_schema == with_schema,
            r.indent == 0,
    {
        IndentVisitor { out: String::new(), with_schema, indent: 0 }
    }

    /// Append two spaces per indentation level.
    pub fn write_indent(&mut self)
        ensures
            final(self).out@ == old(self).out@ + indent_spaces(old(self).indent as int),
            final(self).with_schema == old(self).with_schema,
            final(self).indent == old(self).indent,
    {
        let n = self.indent;
        let mut i: u32 = 0;
        while i < n
            invariant
                i <= n,
                self.indent == old(self).indent,
                self.with_schema == old(self).with_schema,
                n == old(self).indent,
                self.out@ == old(self).out@ + indent_spaces(i as int),
            decreases n - i,
        {
            self.out.append("  ");
            i = i + 1;
        }
    }
}

impl PlanVisitor for IndentVisitor {
    type Error = ();

    /// Append the node's line and step the indentation one level deeper
    /// (stopping at the counter's limit); the walk always continues.
    fn pre_visit(&mut self, plan: &PlanNode) -> (r: Result<bool, ()>)
        ensures
            r == Ok::<bool, ()>(true),
            final(self).out@ == old(self).out@ + indent_line(
                old(self).indent as int,
                old(self).with_schema,
                *plan,
            ),
            final(self).with_schema == old(self).with_schema,
            final(self).indent == if old(self).indent < u32::MAX {
                old(self).indent + 1
            } else {
                old(self).indent as int
            },
    {
        if self.indent > 0 {
            self.out.append("\n");
        }
        self.write_indent();
        self.out.append(plan.display());
        if self.with_schema {
            self.out.append(" ");
            let rendered = display_schema(&plan.schema);
            self.out.append(rendered.as_str());
        }
        if self.indent < u32::MAX {
            self.indent = self.indent + 1;
        }
        proof {
            assert(self.out@ =~= old(self).out@ + indent_line(
                old(self).indent as int,
                old(self).with_schema,
                *plan,
            ));
        }
        Ok(true)
    }

    /// Step the indentation one level back out (a balanced walk, where every
    /// `post_visit` follows its `pre_visit`, leaves it where it started; at
    /// zero it stays at zero); the walk always continues.
    fn post_visit(&mut self, _plan: &PlanNode) -> (r: Result<bool, ()>)
        ensures
            r == Ok::<bool, ()>(true),
            final(self).out == old(self).out,
            final(self).with_schema == old(self).with_schema,
            final(self).indent == if old(self).indent > 0 {
                old(self).indent - 1
            } else {
                0int
            },
    {
        if self.indent > 0 {
            self.indent = self.indent - 1;
        }
        Ok(true)
    }
}

/// The text that opens a DOT subgraph cluster.
pub open spec fn cluster_header(id: int, title: Seq<char>) -> Seq<char> {
    "  subgraph cluster_"@ + dec_digits(id) + "\n"@ + "  {\n"@ + "    graph[label="@
        + quoted_text(title) + "]\n"@
}

/// Numbers DOT graph nodes and writes cluster delimiters.
#[derive(Default)]
pub struct GraphvizBuilder {
    pub id_gen: usize,
}

impl GraphvizBuilder {
    /// The next fresh node id (ids stop growing at the machine limit).
    pub fn next_id(&mut self) -> (r: usize)
        ensures
            final(self).id_gen == if old(self).id_gen < usize::MAX {
                old(self).id_gen + 1
            } else {
                old(self).id_gen as int
            },
            r == final(self).id_gen,
    {
        if self.id_gen < usize::MAX {
            self.id_gen = self.id_gen + 1;
        }
        self.id_gen
    }

    /// Write the start of a subgraph cluster titled `title`.
    pub fn start_cluster(&mut self, out: &mut String, title: &str)
        ensures
            final(self).id_gen == if old(self).id_gen < usize::MAX {
                old(self).id_gen + 1
            } else {
                old(self).id_gen as int
            },
            final(out)@ == old(out)@ + cluster_header(final(self).id_gen as int, title@),
    {
        out.append("  subgraph cluster_");
        let id = self.next_id();
        let digits = u64_to_string(id as u64);
        out.append(digits.as_str());
        out.append("\n");
        out.append("  {\n");
        out.append("    graph[label=");
        let q = Self::quoted(title);
        out.append(q.as_str());
        out.append("]\n");
        proof {
            assert(out@ =~= old(out)@ + cluster_header(final(self).id_gen as int, title@));
        }
    }

    /// Write the end of a subgraph cluster.
    pub fn end_cluster(&mut self, out: &mut String)
        ensures
            *final(self) == *old(self),
            final(out)@ == old(out)@ + "  }\n"@,
    {
        out.append("  }\n");
    }

    /// A quoted string suitable for inclusion in a DOT chart: wrapped in
    /// double quotes, inner double quotes replaced by underscores.
    pub fn quoted(label: &str) -> (r: String)
        ensures
            r@ == quoted_text(label@),
    {
        let mut out = String::from_str("\"");
        proof {
            reveal_strlit("\"");
            assert(out@ =~= seq!['"']);
        }
        let n = label.unicode_len();
        let mut i: usize = 0;
        while i < n
            invariant
                n == label@.len(),
                i <= n,
                out@ == seq!['"'] + label@.subrange(0, i as int).map_values(
                    |c: char|
                        if c == '"' {
                            '_'
                        } else {
                            c
                        },
                ),
            decreases n - i,
        {
            let c = label.get_char(i);
            if c == '"' {
                out.append("_");
                proof {
                    reveal_strlit("_");
                }
            } else {
                let piece = label.substring_char(i, i + 1);
                out.append(piece);
            }
            proof {
                assert(out@ =~= seq!['"'] + label@.subrange(0, i + 1).map_values(
                    |c2: char|
                        if c2 == '"' {
                            '_'
                        } else {
                            c2
                        },
                ));
            }
            i = i + 1;
        }
        out.append("\"");
        proof {
            reveal_strlit("\"");
            assert(label@.subrange(0, n as int) =~= label@);
            assert(out@ =~= quoted_text(label@));
        }
        out
    }
}

/// Renders a plan for graphical display in the DOT language.
pub struct GraphvizVisitor {
    pub out: String,
    pub graphviz_builder: GraphvizBuilder,
    pub with_schema: bool,
    pub parent_ids: Vec<usize>,
}

impl GraphvizVisitor {
    /// A visitor that renders into an empty buffer.
    pub fn new() -> (r: GraphvizVisitor)
        ensures
            r.out@ == Seq::<char>::empty(),
            r.graphviz_builder.id_gen == 0,
            r.with_schema == false,
            r.parent_ids@.len() == 0,
    {
        GraphvizVisitor {
            out: String::new(),
            graphviz_builder: GraphvizBuilder { id_gen: 0 },
            with_schema: false,
            parent_ids: Vec::new(),
        }
    }

    /// Control whether each node's schema summary is displayed.
    pub fn set_with_schema(&mut self, with_schema: bool)
        ensures
            final(self).with_schema == with_schema,
            final(self).out == old(self).out,
            final(self).graphviz_builder == old(self).graphviz_builder,
            final(self).parent_ids == old(self).parent_ids,
    {
        self.with_schema = with_schema;
    }

    /// Open a subgraph cluster labelled `label` around the plan's rendering.
    pub fn pre_visit_plan(&mut self, label: &str)
        ensures
            final(self).out@ == old(self).out@ + cluster_header(
                final(self).graphviz_builder.id_gen as int,
                label@,
            ),
            final(self).graphviz_builder.id_gen == if old(self).graphviz_builder.id_gen
                < usize::MAX {
                old(self).graphviz_builder.id_gen + 1
            } else {
                old(self).graphviz_builder.id_gen as int
            },
            final(self).with_schema == old(self).with_schema,
            final(self).parent_ids == old(self).parent_ids,
    {
        let builder = &mut self.graphviz_builder;
        builder.start_cluster(&mut self.out, label);
    }

    /// Close the subgraph cluster.
    pub fn post_visit_plan(&mut self)
        ensures
            final(self).out@ == old(self).out@ + "  }\n"@,
            final(self).graphviz_builder == old(self).graphviz_builder,
            final(self).with_schema == old(self).with_schema,
            final(self).parent_ids == old(self).parent_ids,
    {
        let builder = &mut self.graphviz_builder;
        builder.end_cluster(&mut self.out);
    }
}

/// The label of one DOT node: the plan's display text, with the schema
/// summary appended when requested.
pub open spec fn node_label(with_schema: bool, plan: PlanNode) -> Seq<char> {
    plan.label@ + (if with_schema {
        "\\nSchema: "@ + schema_summary(plan.schema)
    } else {
        Seq::<char>::empty()
    })
}

/// The DOT line declaring one boxed node.
pub open spec fn node_line(id: int, label: Seq<char>) -> Seq<char> {
    "    "@ + dec_digits(id) + "[shape=box label="@ + quoted_text(label) + "]\n"@
}

/// The DOT line joining a node to its parent.
pub open spec fn edge_line(parent: int, id: int) -> Seq<char> {
    "    "@ + dec_digits(parent) + " -> "@ + dec_digits(id)
        + " [arrowhead=none, arrowtail=normal, dir=back]\n"@
}

impl PlanVisitor for GraphvizVisitor {
    type Error = ();

    /// Allocate the node's id, append its node line, append an edge line to
    /// the parent when one is open, and push the id as the new parent; the
    /// walk always continues.
    fn pre_visit(&mut self, plan: &PlanNode) -> (r: Result<bool, ()>)
        ensures
            r == Ok::<bool, ()>(true),
            final(self).graphviz_builder.id_gen == if old(self).graphviz_builder.id_gen
                < usize::MAX {
                old(self).graphviz_builder.id_gen + 1
            } else {
                old(self).graphviz_builder.id_gen as int
            },
            final(self).with_schema == old(self).with_schema,
            final(self).parent_ids@ == old(self).parent_ids@.push(
                final(self).graphviz_builder.id_gen,
            ),
            final(self).out@ == old(self).out@ + node_line(
                final(self).graphviz_builder.id_gen as int,
                node_label(old(self).with_schema, *plan),
            ) + (if old(self).parent_ids@.len() > 0 {
                edge_line(
                    old(self).parent_ids@.last() as int,
                    final(self).graphviz_builder.id_gen as int,
                )
            } else {
                Seq::<char>::empty()
            }),
    {
        let id = self.graphviz_builder.next_id();
        let mut label = String::from_str(plan.display());
        if self.with_schema {
            label.append("\\nSchema: ");
            let rendered = display_schema(&plan.schema);
            label.append(rendered.as_str());
        }
        proof {
            assert(label@ =~= node_label(old(self).with_schema, *plan));
        }
        self.out.append("    ");
        let digits = u64_to_string(id as u64);
        self.out.append(digits.as_str());
        self.out.append("[shape=box label=");
        let q = GraphvizBuilder::quoted(label.as_str());
        self.out.append(q.as_str());
        self.out.append("]\n");
        if self.parent_ids.len() > 0 {
            let parent_id = self.parent_ids[self.parent_ids.len() - 1];
            self.out.append("    ");
            let pdigits = u64_to_string(parent_id as u64);
            self.out.append(pdigits.as_str());
            self.out.append(" -> ");
            let cdigits = u64_to_string(id as u64);
            self.out.append(cdigits.as_str());
            self.out.append(" [arrowhead=none, arrowtail=normal, dir=back]\n");
        }
        self.parent_ids.push(id);
        proof {
            assert(self.out@ =~= old(self).out@ + node_line(
                id as int,
                node_label(old(self).with_schema, *plan),
            ) + (if old(self).parent_ids@.len() > 0 {
                edge_line(old(self).parent_ids@.last() as int, id as int)
            } else {
                Seq::<char>::empty()
            }));
        }
        Ok(true)
    }

    /// Close the node by popping its id from the open parents; a balanced
    /// walk always finds the id its `pre_visit` pushed, and on an empty stack
    /// there is nothing to pop; the walk always continues.
    fn post_visit(&mut self, _plan: &PlanNode) -> (r: Result<bool, ()>)
        ensures
            r == Ok::<bool, ()>(true),
            final(self).out == old(self).out,
            final(self).graphviz_builder == old(self).graphviz_builder,
            final(self).with_schema == old(self).with_schema,
            final(self).parent_ids@ == if old(self).parent_ids@.len() > 0 {
                old(self).parent_ids@.drop_last()
            } else {
                old(self).parent_ids@
            },
    {
        if self.parent_ids.len() > 0 {
            let _ = self.parent_ids.pop();
            proof {
                assert(self.parent_ids@ =~= old(self).parent_ids@.drop_last());
            }
        }
        Ok(true)
    }
}

} // verus!
