//! The build graph: rules and edges in the order in which they are
//! written, and the ninja text that they are written as.

use crate::text::{chars_of, join, joined, push_text, texts};
use vstd::prelude::*;

verus! {

/// What an edge builds.
#[derive(Clone, Copy, Debug, PartialEq, Eq, Structural)]
pub enum EdgeKind {
    /// The output of a file that has a build command of its own.
    Special,
    /// The object file of one source file.
    Compile,
    /// The executable.
    Link,
    /// The static library.
    Archive,
}

/// A variable that is set for one edge.
#[derive(Debug)]
pub struct Binding {
    pub name: String,
    pub value: String,
}

/// A named command.
#[derive(Debug)]
pub struct Rule {
    pub name: String,
    pub command: String,
    /// The file to which the command writes what its output depends on.
    pub depfile: Option<String>,
    /// The format of that file.
    pub deps: Option<String>,
}

/// One build step: what is built, by which rule, and from what.
#[derive(Debug)]
pub struct Edge {
    pub kind: EdgeKind,
    pub output: String,
    pub rule: String,
    /// What the command is given.
    pub inputs: Vec<String>,
    /// What must be built first without being given to the command.
    pub implicit: Vec<String>,
    pub bindings: Vec<Binding>,
}

/// A rule or an edge.
#[derive(Debug)]
pub enum Statement {
    Rule(Rule),
    Edge(Edge),
}

/// A build graph: its statements in the order in which they are written,
/// and the target that is built by default.
#[derive(Debug)]
pub struct BuildGraph {
    pub statements: Vec<Statement>,
    pub default_target: String,
}

/// A binding as a mathematical value.
pub struct BindingModel {
    pub name: Seq<char>,
    pub value: Seq<char>,
}

/// A rule as a mathematical value.
pub struct RuleModel {
    pub name: Seq<char>,
    pub command: Seq<char>,
    pub depfile: Option<Seq<char>>,
    pub deps: Option<Seq<char>>,
}

/// An edge as a mathematical value.
pub struct EdgeModel {
    pub kind: EdgeKind,
    pub output: Seq<char>,
    pub rule: Seq<char>,
    pub inputs: Seq<Seq<char>>,
    pub implicit: Seq<Seq<char>>,
    pub bindings: Seq<BindingModel>,
}

/// A statement as a mathematical value.
pub enum StatementModel {
    Rule(RuleModel),
    Edge(EdgeModel),
}

/// A build graph as a mathematical value.
pub struct GraphModel {
    pub statements: Seq<StatementModel>,
    pub default_target: Seq<char>,
}

/// The bindings held by a sequence.
pub open spec fn bindings_of(v: Seq<Binding>) -> Seq<BindingModel> {
    Seq::new(v.len(), |i: int| v[i]@)
}

/// The statements held by a sequence.
pub open spec fn statements_of(v: Seq<Statement>) -> Seq<StatementModel> {
    Seq::new(v.len(), |i: int| v[i]@)
}

impl View for Binding {
    type V = BindingModel;

    open spec fn view(&self) -> BindingModel {
        BindingModel { name: self.name@, value: self.value@ }
    }
}

impl View for Rule {
    type V = RuleModel;

    open spec fn view(&self) -> RuleModel {
        RuleModel {
            name: self.name@,
            command: self.command@,
            depfile: crate::models::opt_text(self.depfile),
            deps: crate::models::opt_text(self.deps),
        }
    }
}

impl View for Edge {
    type V = EdgeModel;

    open spec fn view(&self) -> EdgeModel {
        EdgeModel {
            kind: self.kind,
            output: self.output@,
            rule: self.rule@,
            inputs: texts(self.inputs@),
            implicit: texts(self.implicit@),
            bindings: bindings_of(self.bindings@),
        }
    }
}

impl View for Statement {
    type V = StatementModel;

    open spec fn view(&self) -> StatementModel {
        match self {
            Statement::Rule(r) => StatementModel::Rule(r@),
            Statement::Edge(e) => StatementModel::Edge(e@),
        }
    }
}

impl View for BuildGraph {
    type V = GraphModel;

    open spec fn view(&self) -> GraphModel {
        GraphModel {
            statements: statements_of(self.statements@),
            default_target: self.default_target@,
        }
    }
}

/// One character of a path as ninja reads it: a space and a colon each
/// take a dollar sign before them.
pub open spec fn escaped_char(c: char) -> Seq<char> {
    if c == ' ' {
        "$ "@
    } else if c == ':' {
        "$:"@
    } else {
        seq![c]
    }
}

/// A path as ninja reads it.
pub open spec fn escaped(s: Seq<char>) -> Seq<char>
    decreases s.len(),
{
    if s.len() == 0 {
        Seq::empty()
    } else {
        escaped(s.drop_last()) + escaped_char(s.last())
    }
}

/// Each path as ninja reads it.
pub open spec fn escaped_all(paths: Seq<Seq<char>>) -> Seq<Seq<char>> {
    Seq::new(paths.len(), |i: int| escaped(paths[i]))
}

/// The line that sets `label`, where there is a value.
pub open spec fn optional_line(label: Seq<char>, value: Option<Seq<char>>) -> Seq<char> {
    match value {
        Some(v) => "  "@ + label + " = "@ + v + "\n"@,
        None => Seq::empty(),
    }
}

/// The text of a rule: its name, its command, its dependency file and
/// format where it has them, and an empty line.
pub open spec fn rule_text(r: RuleModel) -> Seq<char> {
    "rule "@ + r.name + "\n  command = "@ + r.command + "\n"@ + optional_line(
        "depfile"@,
        r.depfile,
    ) + optional_line("deps"@, r.deps) + "\n"@
}

/// The lines of the first `n` bindings.
pub open spec fn bindings_text(b: Seq<BindingModel>, n: int) -> Seq<char>
    decreases n,
{
    if n <= 0 {
        Seq::empty()
    } else {
        bindings_text(b, n - 1) + optional_line(b[n - 1].name, Some(b[n - 1].value))
    }
}

/// What an edge must wait for, after a bar; nothing where it waits for
/// nothing.
pub open spec fn implicit_text(implicit: Seq<Seq<char>>) -> Seq<char> {
    if implicit.len() > 0 {
        " | "@ + joined(escaped_all(implicit), " "@)
    } else {
        Seq::empty()
    }
}

/// The text of an edge: the build line, its bindings and an empty line.
pub open spec fn edge_text(e: EdgeModel) -> Seq<char> {
    "build "@ + escaped(e.output) + ": "@ + e.rule + " "@ + joined(escaped_all(e.inputs), " "@)
        + implicit_text(e.implicit) + "\n"@ + bindings_text(e.bindings, e.bindings.len() as int)
        + "\n"@
}

/// The text of a statement.
pub open spec fn statement_text(s: StatementModel) -> Seq<char> {
    match s {
        StatementModel::Rule(r) => rule_text(r),
        StatementModel::Edge(e) => edge_text(e),
    }
}

/// The text of the first `n` statements.
pub open spec fn statements_text(s: Seq<StatementModel>, n: int) -> Seq<char>
    decreases n,
{
    if n <= 0 {
        Seq::empty()
    } else {
        statements_text(s, n - 1) + statement_text(s[n - 1])
    }
}

/// The ninja text of a graph: a heading, the statements in order, and the
/// default target.
pub open spec fn graph_text(g: GraphModel) -> Seq<char> {
    "# Generated by cbp2clangd\n\n"@ + statements_text(g.statements, g.statements.len() as int)
        + "default "@ + escaped(g.default_target) + "\n"@
}

/// How many of the first `n` statements are edges of the given kind.
pub open spec fn edges_among(s: Seq<StatementModel>, kind: EdgeKind, n: int) -> nat
    decreases n,
{
    if n <= 0 {
        0
    } else {
        edges_among(s, kind, n - 1) + match s[n - 1] {
            StatementModel::Edge(e) => if e.kind == kind {
                1nat
            } else {
                0nat
            },
            StatementModel::Rule(_) => 0nat,
        }
    }
}

/// How many edges of the given kind a graph has.
pub open spec fn edge_count(g: GraphModel, kind: EdgeKind) -> nat {
    edges_among(g.statements, kind, g.statements.len() as int)
}

/// The statements of a sequence that grew by one.
pub proof fn lemma_statements_push(v: Seq<Statement>, s: Statement)
    ensures
        statements_of(v.push(s)) == statements_of(v).push(s@),
{
}

/// The bindings of a sequence that grew by one.
pub proof fn lemma_bindings_push(v: Seq<Binding>, b: Binding)
    ensures
        bindings_of(v.push(b)) == bindings_of(v).push(b@),
{
}

/// A path as ninja reads it.
pub fn escape(path: &str) -> (r: String)
    ensures
        r@ == escaped(path@),
{
    let x = chars_of(path);
    let mut out = String::new();
    let mut i: usize = 0;
    while i < x.len()
        invariant
            i <= x.len(),
            x@ == path@,
            out@ == escaped(x@.take(i as int)),
        decreases x.len() - i,
    {
        assert(x@.take(i + 1).drop_last() == x@.take(i as int));
        let c = x[i];
        if c == ' ' {
            out.append("$ ");
        } else if c == ':' {
            out.append("$:");
        } else {
            out.push(c);
        }
        i += 1;
    }
    assert(x@.take(x.len() as int) == x@);
    out
}

/// Each path as ninja reads it.
pub fn escape_all(paths: &Vec<String>) -> (r: Vec<String>)
    ensures
        texts(r@) == escaped_all(texts(paths@)),
{
    let mut out: Vec<String> = Vec::new();
    let mut i: usize = 0;
    while i < paths.len()
        invariant
            i <= paths.len(),
            texts(out@) == escaped_all(texts(paths@).take(i as int)),
        decreases paths.len() - i,
    {
        push_text(&mut out, escape(paths[i].as_str()));
        i += 1;
    }
    out
}

/// The line that sets `label`, where there is a value.
pub fn line_of(label: &str, value: &Option<String>) -> (r: String)
    ensures
        r@ == optional_line(label@, crate::models::opt_text(*value)),
{
    match value {
        Some(v) => {
            let mut out = "  ".to_string();
            out.append(label);
            out.append(" = ");
            out.append(v.as_str());
            out.append("\n");
            out
        },
        None => String::new(),
    }
}

impl Rule {
    /// The text of the rule.
    pub fn render(&self) -> (r: String)
        ensures
            r@ == rule_text(self@),
    {
        let mut out = "rule ".to_string();
        out.append(self.name.as_str());
        out.append("\n  command = ");
        out.append(self.command.as_str());
        out.append("\n");
        out.append(line_of("depfile", &self.depfile).as_str());
        out.append(line_of("deps", &self.deps).as_str());
        out.append("\n");
        out
    }
}

impl Edge {
    /// The text of the edge.
    pub fn render(&self) -> (r: String)
        ensures
            r@ == edge_text(self@),
    {
        let mut out = "build ".to_string();
        out.append(escape(self.output.as_str()).as_str());
        out.append(": ");
        out.append(self.rule.as_str());
        out.append(" ");
        out.append(join(&escape_all(&self.inputs), " ").as_str());
        if self.implicit.len() > 0 {
            let mut waits = " | ".to_string();
            waits.append(join(&escape_all(&self.implicit), " ").as_str());
            out.append(waits.as_str());
        }
        out.append("\n");
        let mut lines = String::new();
        let mut i: usize = 0;
        while i < self.bindings.len()
            invariant
                i <= self.bindings.len(),
                lines@ == bindings_text(self@.bindings, i as int),
            decreases self.bindings.len() - i,
        {
            let b = &self.bindings[i];
            let mut line = "  ".to_string();
            line.append(b.name.as_str());
            line.append(" = ");
            line.append(b.value.as_str());
            line.append("\n");
            lines.append(line.as_str());
            i += 1;
        }
        out.append(lines.as_str());
        out.append("\n");
        out
    }
}

impl BuildGraph {
    /// The ninja text of the graph.
    pub fn render(&self) -> (r: String)
        ensures
            r@ == graph_text(self@),
    {
        let mut body = String::new();
        let mut i: usize = 0;
        while i < self.statements.len()
            invariant
                i <= self.statements.len(),
                body@ == statements_text(self@.statements, i as int),
            decreases self.statements.len() - i,
        {
            match &self.statements[i] {
                Statement::Rule(r) => {
                    body.append(r.render().as_str());
                },
                Statement::Edge(e) => {
                    body.append(e.render().as_str());
                },
            }
            i += 1;
        }
        let mut out = "# Generated by cbp2clangd\n\n".to_string();
        out.append(body.as_str());
        out.append("default ");
        out.append(escape(self.default_target.as_str()).as_str());
        out.append("\n");
        out
    }
}

} // verus!
