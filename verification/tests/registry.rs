use tinybuf_script::{
    call_answer, call_line, type_lines, type_list_lines, CallReply, ErrorKind, MethodInfo, OpInfo,
    OpsInfo, Returned, TypeInfo,
};

fn some(s: &str) -> Option<String> {
    Some(s.to_string())
}

#[test]
fn type_list() {
    assert_eq!(type_list_lines(&vec![]), vec!["no types"]);
    assert_eq!(type_list_lines(&vec![some("a"), None, some("b")]), vec!["a", "b"]);
    assert_eq!(type_list_lines(&vec![None]), Vec::<String>::new());
}

#[test]
fn describes_a_type_without_members() {
    let info = TypeInfo {
        name: "ghost".to_string(),
        description: None,
        kind: -1,
        size: 0,
        fields: vec![],
        methods: vec![],
        ops: OpsInfo::Unknown,
    };
    assert_eq!(
        type_lines(&info),
        vec![
            "type ghost",
            "  desc <none>",
            "  kind <unknown>",
            "  size 0",
            "  fields <none>",
            "  methods <none>",
            "  ops <unknown>",
        ]
    );
    let info = TypeInfo {
        name: "testobj".to_string(),
        description: some("demo type"),
        kind: 0,
        size: 8,
        fields: vec![],
        methods: vec![],
        ops: OpsInfo::Known(vec![]),
    };
    assert_eq!(
        type_lines(&info),
        vec![
            "type testobj",
            "  desc demo type",
            "  kind simple",
            "  size 8",
            "  fields <none>",
            "  methods <none>",
            "  ops <none>",
        ]
    );
}

#[test]
fn describes_a_type_with_members() {
    let op = |n: Option<&str>, s: Option<&str>, d: Option<&str>| {
        Some(OpInfo {
            name: n.map(|x| x.to_string()),
            signature: s.map(|x| x.to_string()),
            description: d.map(|x| x.to_string()),
        })
    };
    let info = TypeInfo {
        name: "point".to_string(),
        description: some("a point"),
        kind: 1,
        size: 16,
        fields: vec![some("x"), None, some("y")],
        methods: vec![
            Some(MethodInfo { name: "len".to_string(), signature: some("() -> i64") }),
            None,
            Some(MethodInfo { name: "reset".to_string(), signature: None }),
        ],
        ops: OpsInfo::Known(vec![
            op(Some("add"), Some("i64, i64 -> i64"), Some("sum two i64")),
            op(Some("neg"), Some("i64 -> i64"), None),
            op(Some("nop"), None, Some("does nothing")),
            op(Some("bare"), Some(""), Some("")),
            None,
            op(None, None, None),
        ]),
    };
    assert_eq!(
        type_lines(&info),
        vec![
            "type point",
            "  desc a point",
            "  kind complex",
            "  size 16",
            "  field x",
            "  field y",
            "  method len () -> i64",
            "  method reset",
            "  op add [i64, i64 -> i64] - sum two i64",
            "  op neg [i64 -> i64]",
            "  op nop - does nothing",
            "  op bare",
            "  op <unnamed>",
        ]
    );
}

#[test]
fn answers_a_call() {
    assert_eq!(call_line(-1, Some(Returned::Int(5))), "op call failed");
    assert_eq!(call_line(-7, None), "op call failed");
    assert_eq!(call_line(0, Some(Returned::Int(-5))), "-5");
    assert_eq!(call_line(0, Some(Returned::Other)), "value");
    assert_eq!(call_line(0, None), "ok 0");
    assert_eq!(call_line(12, None), "ok 12");
}

#[test]
fn call_that_could_not_be_made_is_a_foreign_error() {
    let e = call_answer(CallReply::AllocFailed).unwrap_err();
    assert_eq!(e.kind, ErrorKind::Foreign);
    assert_eq!(e.message, "alloc arg failed");
    assert_eq!(call_answer(CallReply::Done(0, Some(Returned::Int(3)))), Ok("3".to_string()));
    assert_eq!(call_answer(CallReply::Done(-2, None)), Ok("op call failed".to_string()));
}
