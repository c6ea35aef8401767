//! What the host's type registry reports, as plain values, and the lines
//! of text that describe it.

use vstd::prelude::*;
use vstd::string::StringExecFns;
use crate::ast::{clone_opt_string, opt_string_view};
use crate::text::{decimal, decimal_nat, int_to_string, joined, push_decimal, push_int};
use crate::value::{Error, ErrorKind, ErrorModel};

verus! {

/// A method of a type: its name, and its signature if the registry has one.
#[derive(Debug, PartialEq)]
pub struct MethodInfo {
    pub name: String,
    pub signature: Option<String>,
}

/// An operation of a type, each part of it if the registry has it.
#[derive(Debug, PartialEq)]
pub struct OpInfo {
    pub name: Option<String>,
    pub signature: Option<String>,
    pub description: Option<String>,
}

/// The operations of a type: not known to the registry, or one entry for
/// each, empty where the registry could not describe the operation.
#[derive(Debug, PartialEq)]
pub enum OpsInfo {
    Unknown,
    Known(Vec<Option<OpInfo>>),
}

/// What the registry reports of a type. `kind` is negative where the
/// registry does not know the type's kind, zero for a simple type. A field
/// or method without a name is an empty entry.
#[derive(Debug, PartialEq)]
pub struct TypeInfo {
    pub name: String,
    pub description: Option<String>,
    pub kind: i32,
    pub size: usize,
    pub fields: Vec<Option<String>>,
    pub methods: Vec<Option<MethodInfo>>,
    pub ops: OpsInfo,
}

/// What an operation handed back.
#[derive(Debug, Clone, Copy, PartialEq, Eq)]
pub enum Returned {
    /// A 64-bit integer.
    Int(i64),
    /// A value of another type.
    Other,
}

/// How a call of an operation went.
#[derive(Debug, Clone, Copy, PartialEq, Eq)]
pub enum CallReply {
    /// The registry could not make an instance for an argument.
    AllocFailed,
    /// The operation was invoked: its status, negative for a failure, and
    /// what it handed back, if anything.
    Done(i32, Option<Returned>),
}

/// The model of a method.
pub struct MethodModel {
    pub name: Seq<char>,
    pub signature: Option<Seq<char>>,
}

/// The model of an operation.
pub struct OpModel {
    pub name: Option<Seq<char>>,
    pub signature: Option<Seq<char>>,
    pub description: Option<Seq<char>>,
}

/// The model of the operations of a type.
pub enum OpsInfoModel {
    Unknown,
    Known(Seq<Option<OpModel>>),
}

/// The model of what the registry reports of a type.
pub struct TypeModel {
    pub name: Seq<char>,
    pub description: Option<Seq<char>>,
    pub kind: i32,
    pub size: nat,
    pub fields: Seq<Option<Seq<char>>>,
    pub methods: Seq<Option<MethodModel>>,
    pub ops: OpsInfoModel,
}

/// The model of a sequence of optional names.
pub open spec fn names_view(s: Seq<Option<String>>) -> Seq<Option<Seq<char>>> {
    Seq::new(s.len(), |i: int| opt_string_view(s[i]))
}

impl MethodInfo {
    pub open spec fn view(&self) -> MethodModel {
        MethodModel { name: self.name@, signature: opt_string_view(self.signature) }
    }
}

impl OpInfo {
    pub open spec fn view(&self) -> OpModel {
        OpModel {
            name: opt_string_view(self.name),
            signature: opt_string_view(self.signature),
            description: opt_string_view(self.description),
        }
    }
}

/// The model of a sequence of optional methods.
pub open spec fn methods_view(s: Seq<Option<MethodInfo>>) -> Seq<Option<MethodModel>> {
    Seq::new(
        s.len(),
        |i: int|
            match s[i] {
                Some(m) => Some(m.view()),
                None => None,
            },
    )
}

/// The model of a sequence of optional operations.
pub open spec fn ops_view(s: Seq<Option<OpInfo>>) -> Seq<Option<OpModel>> {
    Seq::new(
        s.len(),
        |i: int|
            match s[i] {
                Some(op) => Some(op.view()),
                None => None,
            },
    )
}

impl OpsInfo {
    pub open spec fn view(&self) -> OpsInfoModel {
        match self {
            OpsInfo::Unknown => OpsInfoModel::Unknown,
            OpsInfo::Known(ops) => OpsInfoModel::Known(ops_view(ops@)),
        }
    }
}

impl TypeInfo {
    pub open spec fn view(&self) -> TypeModel {
        TypeModel {
            name: self.name@,
            description: opt_string_view(self.description),
            kind: self.kind,
            size: self.size as nat,
            fields: names_view(self.fields@),
            methods: methods_view(self.methods@),
            ops: self.ops.view(),
        }
    }
}

/// A copy of a sequence of optional names.
pub fn clone_names(v: &Vec<Option<String>>) -> (r: Vec<Option<String>>)
    ensures
        names_view(r@) == names_view(v@),
{
    let mut out: Vec<Option<String>> = Vec::new();
    let mut i: usize = 0;
    while i < v.len()
        invariant
            i <= v.len(),
            out.len() == i,
            forall|j: int| 0 <= j < i ==> #[trigger] out[j] == v[j],
        decreases v.len() - i,
    {
        out.push(clone_opt_string(&v[i]));
        i += 1;
    }
    assert(names_view(out@) =~= names_view(v@));
    out
}

impl Clone for MethodInfo {
    fn clone(&self) -> (r: Self)
        ensures
            r.view() == self.view(),
    {
        MethodInfo { name: self.name.clone(), signature: clone_opt_string(&self.signature) }
    }
}

impl Clone for OpInfo {
    fn clone(&self) -> (r: Self)
        ensures
            r.view() == self.view(),
    {
        OpInfo {
            name: clone_opt_string(&self.name),
            signature: clone_opt_string(&self.signature),
            description: clone_opt_string(&self.description),
        }
    }
}

impl Clone for OpsInfo {
    fn clone(&self) -> (r: Self)
        ensures
            r.view() == self.view(),
    {
        match self {
            OpsInfo::Unknown => OpsInfo::Unknown,
            OpsInfo::Known(ops) => {
                let mut out: Vec<Option<OpInfo>> = Vec::new();
                let mut i: usize = 0;
                while i < ops.len()
                    invariant
                        i <= ops.len(),
                        out.len() == i,
                        forall|j: int|
                            0 <= j < i ==> #[trigger] ops_view(out@)[j] == ops_view(ops@)[j],
                    decreases ops.len() - i,
                {
                    let ghost before = out@;
                    match &ops[i] {
                        Some(op) => out.push(Some(op.clone())),
                        None => out.push(None),
                    }
                    assert forall|j: int| 0 <= j < i + 1 implies #[trigger] ops_view(out@)[j]
                        == ops_view(ops@)[j] by {
                        if j < i {
                            assert(out@[j] == before[j]);
                            assert(ops_view(before)[j] == ops_view(ops@)[j]);
                        }
                    }
                    i += 1;
                }
                assert(ops_view(out@) =~= ops_view(ops@));
                OpsInfo::Known(out)
            },
        }
    }
}

impl Clone for TypeInfo {
    fn clone(&self) -> (r: Self)
        ensures
            r.view() == self.view(),
    {
        let mut methods: Vec<Option<MethodInfo>> = Vec::new();
        let mut i: usize = 0;
        while i < self.methods.len()
            invariant
                i <= self.methods.len(),
                methods.len() == i,
                forall|j: int|
                    0 <= j < i ==> #[trigger] methods_view(methods@)[j] == methods_view(
                        self.methods@,
                    )[j],
            decreases self.methods.len() - i,
        {
            let ghost before = methods@;
            match &self.methods[i] {
                Some(m) => methods.push(Some(m.clone())),
                None => methods.push(None),
            }
            assert forall|j: int| 0 <= j < i + 1 implies #[trigger] methods_view(methods@)[j]
                == methods_view(self.methods@)[j] by {
                if j < i {
                    assert(methods@[j] == before[j]);
                    assert(methods_view(before)[j] == methods_view(self.methods@)[j]);
                }
            }
            i += 1;
        }
        assert(methods_view(methods@) =~= methods_view(self.methods@));
        TypeInfo {
            name: self.name.clone(),
            description: clone_opt_string(&self.description),
            kind: self.kind,
            size: self.size,
            fields: clone_names(&self.fields),
            methods,
            ops: self.ops.clone(),
        }
    }
}

/// The model of a sequence of lines.
pub open spec fn lines_view(s: Seq<String>) -> Seq<Seq<char>> {
    Seq::new(s.len(), |i: int| s[i]@)
}

/// The names from position `i` on that are there, after `acc`.
pub open spec fn present_from(names: Seq<Option<Seq<char>>>, i: int, acc: Seq<Seq<char>>) -> Seq<
    Seq<char>,
>
    decreases names.len() - i,
{
    if i < 0 || i >= names.len() {
        acc
    } else {
        match names[i] {
            Some(n) => present_from(names, i + 1, acc.push(n)),
            None => present_from(names, i + 1, acc),
        }
    }
}

/// The lines that list the registered types: the names that the registry
/// has, or `no types` where it holds no type.
pub open spec fn type_list_model(names: Seq<Option<Seq<char>>>) -> Seq<Seq<char>> {
    if names.len() == 0 {
        seq!["no types"@]
    } else {
        present_from(names, 0, Seq::empty())
    }
}

/// The lines of the fields from position `i` on, after `acc`.
pub open spec fn field_lines(fields: Seq<Option<Seq<char>>>, i: int, acc: Seq<Seq<char>>) -> Seq<
    Seq<char>,
>
    decreases fields.len() - i,
{
    if i < 0 || i >= fields.len() {
        acc
    } else {
        match fields[i] {
            Some(n) => field_lines(fields, i + 1, acc.push("  field "@ + n)),
            None => field_lines(fields, i + 1, acc),
        }
    }
}

/// The line of a method.
pub open spec fn method_line(m: MethodModel) -> Seq<char> {
    match m.signature {
        Some(sig) => "  method "@ + m.name + " "@ + sig,
        None => "  method "@ + m.name,
    }
}

/// The lines of the methods from position `i` on, after `acc`.
pub open spec fn method_lines(
    methods: Seq<Option<MethodModel>>,
    i: int,
    acc: Seq<Seq<char>>,
) -> Seq<
    Seq<char>,
>
    decreases methods.len() - i,
{
    if i < 0 || i >= methods.len() {
        acc
    } else {
        match methods[i] {
            Some(m) => method_lines(methods, i + 1, acc.push(method_line(m))),
            None => method_lines(methods, i + 1, acc),
        }
    }
}

/// The text of an optional part, or `missing` where it is not there.
pub open spec fn part(s: Option<Seq<char>>, missing: Seq<char>) -> Seq<char> {
    match s {
        Some(t) => t,
        None => missing,
    }
}

/// The line of an operation: its name, its signature in square brackets
/// where it has one, and its description behind a dash where it has one.
pub open spec fn op_line(op: OpModel) -> Seq<char> {
    let name = part(op.name, "<unnamed>"@);
    let sig = part(op.signature, Seq::empty());
    let desc = part(op.description, Seq::empty());
    if sig.len() == 0 && desc.len() == 0 {
        "  op "@ + name
    } else if desc.len() == 0 {
        "  op "@ + name + " ["@ + sig + "]"@
    } else if sig.len() == 0 {
        "  op "@ + name + " - "@ + desc
    } else {
        "  op "@ + name + " ["@ + sig + "] - "@ + desc
    }
}

/// The lines of the operations from position `i` on, after `acc`.
pub open spec fn op_lines(ops: Seq<Option<OpModel>>, i: int, acc: Seq<Seq<char>>) -> Seq<Seq<char>>
    decreases ops.len() - i,
{
    if i < 0 || i >= ops.len() {
        acc
    } else {
        match ops[i] {
            Some(op) => op_lines(ops, i + 1, acc.push(op_line(op))),
            None => op_lines(ops, i + 1, acc),
        }
    }
}

/// The first four lines that describe a type: its name, its description,
/// its kind and its size.
pub open spec fn head_lines(info: TypeModel) -> Seq<Seq<char>> {
    seq![
        "type "@ + info.name,
        "  desc "@ + part(info.description, "<none>"@),
        if info.kind < 0 {
            "  kind <unknown>"@
        } else if info.kind == 0 {
            "  kind simple"@
        } else {
            "  kind complex"@
        },
        "  size "@ + decimal_nat(info.size),
    ]
}

/// The lines that describe a type: the head, then the fields, the methods
/// and the operations, each of them or a line that says there is none.
pub open spec fn type_model(info: TypeModel) -> Seq<Seq<char>> {
    let head = head_lines(info);
    let with_fields = if info.fields.len() == 0 {
        head.push("  fields <none>"@)
    } else {
        field_lines(info.fields, 0, head)
    };
    let with_methods = if info.methods.len() == 0 {
        with_fields.push("  methods <none>"@)
    } else {
        method_lines(info.methods, 0, with_fields)
    };
    match info.ops {
        OpsInfoModel::Unknown => with_methods.push("  ops <unknown>"@),
        OpsInfoModel::Known(ops) => if ops.len() == 0 {
            with_methods.push("  ops <none>"@)
        } else {
            op_lines(ops, 0, with_methods)
        },
    }
}

/// The line that stands for an invoked operation: that it failed where the
/// status is negative; the returned integer, or `value` for a value of
/// another type; the status where nothing was returned.
pub open spec fn call_model(status: i32, returned: Option<Returned>) -> Seq<char> {
    if status < 0 {
        "op call failed"@
    } else {
        match returned {
            Some(Returned::Int(v)) => decimal(v as int),
            Some(Returned::Other) => "value"@,
            None => "ok "@ + decimal(status as int),
        }
    }
}

/// What a call of an operation comes to: the line for the invoked
/// operation, or the failure of a call that could not be made.
pub open spec fn answer_model(reply: CallReply) -> Result<Seq<char>, ErrorModel> {
    match reply {
        CallReply::AllocFailed => Err(
            ErrorModel { kind: ErrorKind::Foreign, message: "alloc arg failed"@ },
        ),
        CallReply::Done(status, returned) => Ok(call_model(status, returned)),
    }
}

fn push_line(lines: &mut Vec<String>, line: String)
    ensures
        lines_view(final(lines)@) == lines_view(old(lines)@).push(line@),
{
    lines.push(line);
    assert(lines_view(lines@) =~= lines_view(old(lines)@).push(line@));
}

/// The lines that list the registered types.
pub fn type_list_lines(names: &Vec<Option<String>>) -> (r: Vec<String>)
    ensures
        lines_view(r@) == type_list_model(names_view(names@)),
{
    let mut lines: Vec<String> = Vec::new();
    assert(lines_view(lines@) =~= Seq::<Seq<char>>::empty());
    if names.len() == 0 {
        push_line(&mut lines, String::from_str("no types"));
        assert(lines_view(lines@) =~= seq!["no types"@]);
        return lines;
    }
    let mut i: usize = 0;
    let ghost ms = names_view(names@);
    while i < names.len()
        invariant
            i <= names.len(),
            ms == names_view(names@),
            present_from(ms, 0, Seq::empty()) == present_from(ms, i as int, lines_view(lines@)),
        decreases names.len() - i,
    {
        match &names[i] {
            Some(n) => {
                push_line(&mut lines, n.clone());
            },
            None => {},
        }
        i += 1;
    }
    lines
}

fn line_of_op(op: &OpInfo) -> (r: String)
    ensures
        r@ == op_line(op.view()),
{
    let mut line = String::from_str("  op ");
    match &op.name {
        Some(n) => line.append(n.as_str()),
        None => line.append("<unnamed>"),
    }
    let has_sig = match &op.signature {
        Some(s) => !s.as_str().is_empty(),
        None => false,
    };
    let has_desc = match &op.description {
        Some(d) => !d.as_str().is_empty(),
        None => false,
    };
    if has_sig {
        line.append(" [");
        match &op.signature {
            Some(s) => line.append(s.as_str()),
            None => {},
        }
        if has_desc {
            line.append("] - ");
        } else {
            line.append("]");
        }
    } else if has_desc {
        line.append(" - ");
    }
    if has_desc {
        match &op.description {
            Some(d) => line.append(d.as_str()),
            None => {},
        }
    }
    assert(line@ =~= op_line(op.view()));
    line
}

fn line_of_method(m: &MethodInfo) -> (r: String)
    ensures
        r@ == method_line(m.view()),
{
    let mut line = String::from_str("  method ");
    line.append(m.name.as_str());
    match &m.signature {
        Some(sig) => {
            line.append(" ");
            line.append(sig.as_str());
        },
        None => {},
    }
    line
}

fn head_of(info: &TypeInfo) -> (r: Vec<String>)
    ensures
        lines_view(r@) == head_lines(info.view()),
{
    let mut lines: Vec<String> = Vec::new();
    lines.push(joined("type ", info.name.as_str()));
    match &info.description {
        Some(d) => lines.push(joined("  desc ", d.as_str())),
        None => lines.push(joined("  desc ", "<none>")),
    }
    if info.kind < 0 {
        lines.push(String::from_str("  kind <unknown>"));
    } else if info.kind == 0 {
        lines.push(String::from_str("  kind simple"));
    } else {
        lines.push(String::from_str("  kind complex"));
    }
    let mut size = String::from_str("  size ");
    push_decimal(&mut size, info.size as u64);
    lines.push(size);
    assert(lines_view(lines@) =~= head_lines(info.view()));
    lines
}

/// The lines that describe a type.
pub fn type_lines(info: &TypeInfo) -> (r: Vec<String>)
    ensures
        lines_view(r@) == type_model(info.view()),
{
    let mut lines = head_of(info);
    let ghost m = info.view();
    if info.fields.len() == 0 {
        push_line(&mut lines, String::from_str("  fields <none>"));
    } else {
        let ghost start = lines_view(lines@);
        let mut i: usize = 0;
        while i < info.fields.len()
            invariant
                i <= info.fields.len(),
                m == info.view(),
                field_lines(m.fields, 0, start) == field_lines(
                    m.fields,
                    i as int,
                    lines_view(lines@),
                ),
            decreases info.fields.len() - i,
        {
            match &info.fields[i] {
                Some(n) => {
                    push_line(&mut lines, joined("  field ", n.as_str()));
                },
                None => {},
            }
            i += 1;
        }
    }
    if info.methods.len() == 0 {
        push_line(&mut lines, String::from_str("  methods <none>"));
    } else {
        let ghost start = lines_view(lines@);
        let mut i: usize = 0;
        while i < info.methods.len()
            invariant
                i <= info.methods.len(),
                m == info.view(),
                method_lines(m.methods, 0, start) == method_lines(
                    m.methods,
                    i as int,
                    lines_view(lines@),
                ),
            decreases info.methods.len() - i,
        {
            match &info.methods[i] {
                Some(method) => {
                    push_line(&mut lines, line_of_method(method));
                },
                None => {},
            }
            i += 1;
        }
    }
    match &info.ops {
        OpsInfo::Unknown => {
            push_line(&mut lines, String::from_str("  ops <unknown>"));
        },
        OpsInfo::Known(ops) => {
            if ops.len() == 0 {
                push_line(&mut lines, String::from_str("  ops <none>"));
            } else {
                let ghost start = lines_view(lines@);
                let ghost os = ops_view(ops@);
                let mut i: usize = 0;
                while i < ops.len()
                    invariant
                        i <= ops.len(),
                        os == ops_view(ops@),
                        op_lines(os, 0, start) == op_lines(os, i as int, lines_view(lines@)),
                    decreases ops.len() - i,
                {
                    match &ops[i] {
                        Some(op) => {
                            push_line(&mut lines, line_of_op(op));
                        },
                        None => {},
                    }
                    i += 1;
                }
            }
        },
    }
    lines
}

/// The line that stands for an invoked operation.
pub fn call_line(status: i32, returned: Option<Returned>) -> (r: String)
    ensures
        r@ == call_model(status, returned),
{
    if status < 0 {
        return String::from_str("op call failed");
    }
    match returned {
        Some(Returned::Int(v)) => int_to_string(v),
        Some(Returned::Other) => String::from_str("value"),
        None => {
            let mut line = String::from_str("ok ");
            push_int(&mut line, status as i64);
            line
        },
    }
}

/// What a call of an operation comes to.
pub fn call_answer(reply: CallReply) -> (r: Result<String, Error>)
    ensures
        match r {
            Ok(line) => answer_model(reply) == Ok::<Seq<char>, ErrorModel>(line@),
            Err(e) => answer_model(reply) == Err::<Seq<char>, ErrorModel>(e.view()),
        },
{
    match reply {
        CallReply::AllocFailed => Err(
            Error { kind: ErrorKind::Foreign, message: String::from_str("alloc arg failed") },
        ),
        CallReply::Done(status, returned) => Ok(call_line(status, returned)),
    }
}

} // verus!
