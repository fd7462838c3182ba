use std::str::FromStr;
use kv::dispatch::{run, Reply, Request};
use kv::engine::{hooks_to_run, shell_or_default, HookAction};
use kv::kvmap::{del_key, get_key, set_key, KvMap};
use kv::listing::{hook_table, kv_table, listing, render, ListSubject};
use kv::op::{OpType, ParseOpError};
use kv::store::{add_hook, rm_hook, Hook, HookError, KVStore, StoreParts};

fn s(x: &str) -> String {
    x.to_string()
}

fn hook(name: &str, cmd: &str, op: OpType, key: &str) -> Hook {
    Hook { name: s(name), cmd_name: s(cmd), run_on: op, key: s(key) }
}

fn sorted(mut v: Vec<(String, String)>) -> Vec<(String, String)> {
    v.sort();
    v
}

#[test]
fn op_tokens_round_trip() {
    for op in [OpType::Get, OpType::Put, OpType::Del] {
        assert_eq!(OpType::parse(op.as_str()), Ok(op));
    }
    assert_eq!(OpType::Get.as_str(), "get");
    assert_eq!(OpType::Put.as_str(), "set");
    assert_eq!(OpType::Del.as_str(), "del");
    let parsed: OpType = "del".parse().unwrap();
    assert_eq!(parsed, OpType::Del);
}

#[test]
fn op_parse_rejects_other_tokens() {
    assert_eq!(OpType::parse("GET"), Err(ParseOpError));
    assert_eq!(OpType::parse(""), Err(ParseOpError));
    assert_eq!(OpType::parse("delete"), Err(ParseOpError));
}

#[test]
fn map_set_then_get() {
    let mut m = KvMap::new();
    set_key("color", "blue", &mut m);
    assert_eq!(get_key("color", &m), Some(s("blue")));
    assert_eq!(m.len(), 1);
}

#[test]
fn map_set_overwrites() {
    let mut m = KvMap::new();
    set_key("color", "blue", &mut m);
    set_key("color", "red", &mut m);
    assert_eq!(get_key("color", &m), Some(s("red")));
    assert_eq!(m.len(), 1);
}

#[test]
fn map_set_twice_same_as_once() {
    let mut once = KvMap::new();
    set_key("a", "1", &mut once);
    set_key("k", "v", &mut once);
    let mut twice = KvMap::new();
    set_key("a", "1", &mut twice);
    set_key("k", "v", &mut twice);
    set_key("k", "v", &mut twice);
    assert_eq!(sorted(once.entries()), sorted(twice.entries()));
    assert_eq!(twice.len(), 2);
}

#[test]
fn map_get_absent_is_none() {
    let mut m = KvMap::new();
    assert_eq!(get_key("x", &m), None);
    set_key("y", "1", &mut m);
    assert_eq!(get_key("x", &m), None);
    assert_eq!(get_key("", &m), None);
}

#[test]
fn map_delete_present() {
    let mut m = KvMap::new();
    set_key("a", "1", &mut m);
    set_key("b", "2", &mut m);
    set_key("c", "3", &mut m);
    assert_eq!(del_key("b", &mut m), Some(s("2")));
    assert_eq!(get_key("b", &m), None);
    assert_eq!(get_key("a", &m), Some(s("1")));
    assert_eq!(get_key("c", &m), Some(s("3")));
    assert_eq!(m.len(), 2);
}

#[test]
fn map_delete_absent_leaves_map() {
    let mut m = KvMap::new();
    set_key("a", "1", &mut m);
    let before = sorted(m.entries());
    assert_eq!(del_key("zzz", &mut m), None);
    assert_eq!(sorted(m.entries()), before);
}

#[test]
fn add_hook_duplicate_rejected() {
    let mut st = KVStore::new();
    assert_eq!(add_hook(&mut st, s("h"), s("c1"), OpType::Get, s("k")), Ok(()));
    assert_eq!(
        add_hook(&mut st, s("h"), s("c2"), OpType::Put, s("other")),
        Err(HookError::DuplicateHookName)
    );
    assert_eq!(st.hooks().len(), 1);
    assert_eq!(st.hooks()[0].cmd_name, "c1");
    assert_eq!(st.hooks()[0].run_on, OpType::Get);
}

#[test]
fn rm_hook_missing_reports_error() {
    let mut st = KVStore::new();
    add_hook(&mut st, s("a"), s("c"), OpType::Get, s("k")).unwrap();
    assert_eq!(rm_hook(&mut st, "b"), Err(HookError::HookNotFound));
    assert_eq!(st.hooks().len(), 1);
    assert_eq!(st.hooks()[0].name, "a");
}

#[test]
fn rm_hook_removes_named() {
    let mut st = KVStore::new();
    add_hook(&mut st, s("a"), s("c"), OpType::Get, s("k")).unwrap();
    add_hook(&mut st, s("b"), s("c"), OpType::Put, s("k")).unwrap();
    add_hook(&mut st, s("c"), s("c"), OpType::Del, s("k")).unwrap();
    assert_eq!(rm_hook(&mut st, "b"), Ok(()));
    let names: Vec<&str> = st.hooks().iter().map(|h| h.name.as_str()).collect();
    assert_eq!(names, vec!["a", "c"]);
}

#[test]
fn set_then_get_scenario() {
    let mut st = KVStore::new();
    let o = run(&mut st, Request::Put { key: s("color"), val: s("blue") });
    assert!(o.save);
    assert!(matches!(o.reply, Reply::Done));
    let t = o.trigger.unwrap();
    assert_eq!(t.key, "color");
    assert_eq!(t.op, OpType::Put);
    let o = run(&mut st, Request::Get { key: s("color") });
    assert!(!o.save);
    match o.reply {
        Reply::Value(v) => assert_eq!(v, Some(s("blue"))),
        _ => panic!("expected a value"),
    }
    let parts = st.to_parts();
    assert_eq!(parts.kvs, vec![(s("color"), s("blue"))]);
    assert!(parts.cmds.is_empty());
    assert!(parts.hooks.is_empty());
}

#[test]
fn hook_fires_once_on_set() {
    let mut st = KVStore::new();
    let o = run(
        &mut st,
        Request::AddHook { hook_name: s("notify"), cmd_name: s("echo-cmd"), trigger: OpType::Put, key: s("color") },
    );
    assert!(matches!(o.reply, Reply::Done));
    assert!(o.trigger.is_none());
    let o = run(&mut st, Request::AddCmd { cmd_name: s("echo-cmd"), cmd_value: s("echo hi") });
    assert!(o.save);
    let o = run(&mut st, Request::Put { key: s("color"), val: s("red") });
    let t = o.trigger.unwrap();
    let actions = hooks_to_run(&st, &t.key, t.op);
    assert_eq!(actions.len(), 1);
    match &actions[0] {
        HookAction::Run { cmd_name, cmd } => {
            assert_eq!(cmd_name, "echo-cmd");
            assert_eq!(cmd, "echo hi");
        }
        _ => panic!("expected a command to run"),
    }
    assert_eq!(st.hooks().len(), 1);
}

#[test]
fn hook_with_missing_command_is_bad() {
    let mut st = KVStore::new();
    run(
        &mut st,
        Request::AddHook { hook_name: s("h1"), cmd_name: s("missing-cmd"), trigger: OpType::Get, key: s("x") },
    );
    let o = run(&mut st, Request::Get { key: s("x") });
    match o.reply {
        Reply::Value(v) => assert_eq!(v, None),
        _ => panic!("expected a value"),
    }
    let t = o.trigger.unwrap();
    let actions = hooks_to_run(&st, &t.key, t.op);
    assert_eq!(actions.len(), 1);
    match &actions[0] {
        HookAction::BadHook { hook_name } => assert_eq!(hook_name, "h1"),
        _ => panic!("expected a bad hook"),
    }
}

#[test]
fn hooks_match_kind_and_key_exactly() {
    let mut st = KVStore::new();
    st.set_command("c", "echo c");
    add_hook(&mut st, s("a"), s("c"), OpType::Put, s("k")).unwrap();
    add_hook(&mut st, s("b"), s("c"), OpType::Get, s("k")).unwrap();
    add_hook(&mut st, s("d"), s("nope"), OpType::Put, s("k")).unwrap();
    add_hook(&mut st, s("e"), s("c"), OpType::Put, s("K")).unwrap();
    let actions = hooks_to_run(&st, "k", OpType::Put);
    assert_eq!(actions.len(), 2);
    assert!(matches!(&actions[0], HookAction::Run { cmd, .. } if cmd == "echo c"));
    assert!(matches!(&actions[1], HookAction::BadHook { hook_name } if hook_name == "d"));
    assert!(hooks_to_run(&st, "k", OpType::Del).is_empty());
}

#[test]
fn empty_file_decodes_to_empty_store() {
    let decoded = serde_json::from_slice::<serde_json::Value>(b"");
    assert!(decoded.is_err());
    let st = KVStore::from_loaded(None);
    assert_eq!(st.kvs().len(), 0);
    assert_eq!(st.cmds().len(), 0);
    assert!(st.hooks().is_empty());
}

#[test]
fn parts_round_trip_keeps_everything() {
    let mut st = KVStore::new();
    st.set_value("a", "1");
    st.set_value("b", "2");
    st.set_command("c", "echo c");
    add_hook(&mut st, s("h1"), s("c"), OpType::Put, s("a")).unwrap();
    add_hook(&mut st, s("h2"), s("c"), OpType::Del, s("b")).unwrap();
    let back = KVStore::from_parts(st.to_parts());
    assert_eq!(sorted(back.kvs().entries()), sorted(st.kvs().entries()));
    assert_eq!(sorted(back.cmds().entries()), vec![(s("c"), s("echo c"))]);
    let names: Vec<&str> = back.hooks().iter().map(|h| h.name.as_str()).collect();
    assert_eq!(names, vec!["h1", "h2"]);
    assert_eq!(back.hooks()[1].run_on, OpType::Del);
}

#[test]
fn from_parts_later_pair_wins_first_hook_stays() {
    let parts = StoreParts {
        kvs: vec![(s("k"), s("1")), (s("k"), s("2"))],
        cmds: vec![],
        hooks: vec![hook("h", "c1", OpType::Get, "k"), hook("h", "c2", OpType::Put, "k")],
    };
    let st = KVStore::from_parts(parts);
    assert_eq!(get_key("k", st.kvs()), Some(s("2")));
    assert_eq!(st.hooks().len(), 1);
    assert_eq!(st.hooks()[0].cmd_name, "c1");
}

#[test]
fn delete_request_shows_value_and_saves() {
    let mut st = KVStore::new();
    st.set_value("k", "v");
    let o = run(&mut st, Request::Del { key: s("k") });
    assert!(o.save);
    assert!(matches!(o.reply, Reply::Value(Some(ref v)) if v == "v"));
    assert_eq!(o.trigger.unwrap().op, OpType::Del);
    let o = run(&mut st, Request::Del { key: s("k") });
    assert!(matches!(o.reply, Reply::Value(None)));
}

#[test]
fn run_command_request() {
    let mut st = KVStore::new();
    st.set_command("hi", "echo hi");
    let o = run(&mut st, Request::RunCmd { cmd_name: s("hi") });
    assert!(!o.save);
    assert!(matches!(o.reply, Reply::RunCommand { ref cmd, .. } if cmd == "echo hi"));
    let o = run(&mut st, Request::RunCmd { cmd_name: s("nope") });
    assert!(matches!(o.reply, Reply::UnknownCommand { ref cmd_name } if cmd_name == "nope"));
}

#[test]
fn hook_requests_rejected() {
    let mut st = KVStore::new();
    let o = run(&mut st, Request::DelHook { hook_name: s("x") });
    assert!(!o.save);
    assert!(matches!(o.reply, Reply::Rejected(HookError::HookNotFound)));
    run(&mut st, Request::AddHook { hook_name: s("x"), cmd_name: s("c"), trigger: OpType::Get, key: s("k") });
    let o = run(&mut st, Request::AddHook { hook_name: s("x"), cmd_name: s("d"), trigger: OpType::Del, key: s("j") });
    assert!(!o.save);
    assert!(matches!(o.reply, Reply::Rejected(HookError::DuplicateHookName)));
    let o = run(&mut st, Request::DelHook { hook_name: s("x") });
    assert!(o.save);
    assert!(st.hooks().is_empty());
}

#[test]
fn render_aligns_columns() {
    let lines = vec![s("a\tb"), s("ccc\td")];
    assert_eq!(render(&lines), "a    b\nccc  d");
}

#[test]
fn tables_have_headings_and_rows() {
    let mut m = KvMap::new();
    set_key("color", "blue", &mut m);
    assert_eq!(kv_table(&m), vec![s("Key\t--\tValue"), s("color\t--\tblue")]);
    let hooks = vec![hook("n", "c", OpType::Put, "k")];
    assert_eq!(
        hook_table(&hooks),
        vec![s("Hook Name\t--\tCmd Name\t--\tTrigger\t--\tKey"), s("n\t--\tc\t--\tset\t--\tk")]
    );
}

#[test]
fn full_listing_has_three_tables() {
    let mut st = KVStore::new();
    st.set_value("k", "v");
    let blocks = listing(&st, None);
    assert_eq!(blocks.len(), 5);
    assert_eq!(blocks[1], "-------------------");
    assert_eq!(blocks[3], "-------------------");
    assert!(blocks[0].starts_with("Key"));
    assert!(blocks[0].contains("k    --  v"));
    assert_eq!(listing(&st, Some(ListSubject::Hooks)).len(), 1);
    assert_eq!(ListSubject::parse("cmds"), Some(ListSubject::Cmds));
    assert_eq!(ListSubject::parse("other"), None);
}

#[test]
fn shell_defaults_to_bash() {
    assert_eq!(shell_or_default(None), "bash");
    assert_eq!(shell_or_default(Some(s("/bin/zsh"))), "/bin/zsh");
}

#[test]
fn default_store_is_empty() {
    let st = KVStore::default();
    assert_eq!(st.kvs().len(), 0);
    assert_eq!(st.cmds().len(), 0);
    assert!(st.hooks().is_empty());
    assert!(st.to_parts().kvs.is_empty());
}

#[test]
fn from_str_reads_tokens() {
    assert_eq!(OpType::from_str("get"), Ok(OpType::Get));
    assert_eq!(OpType::from_str("set"), Ok(OpType::Put));
    assert_eq!(OpType::from_str("del"), Ok(OpType::Del));
    for bad in ["Get", "delete", "", " get"] {
        assert_eq!(OpType::from_str(bad), Err(ParseOpError));
    }
    for op in [OpType::Get, OpType::Put, OpType::Del] {
        assert_eq!(OpType::from_str(op.as_str()), Ok(op));
    }
}
