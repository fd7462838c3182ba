use vstd::prelude::*;
use crate::kvmap::{get_key, lookup, opt_view};
use crate::op::OpType;
use crate::store::{
    add_hook, has_hook, rm_hook, with_command, with_value, without_value, HookError, HookView,
    KVStore, StoreView,
};

verus! {

/// One request, as the command line resolves it.
pub enum Request {
    /// Read the value of `key`.
    Get { key: String },
    /// Store `val` under `key`.
    Put { key: String, val: String },
    /// Delete `key` and its value.
    Del { key: String },
    /// Run the command called `cmd_name`.
    RunCmd { cmd_name: String },
    /// Store the command `cmd_value` under the name `cmd_name`.
    AddCmd { cmd_name: String, cmd_value: String },
    /// Add a hook.
    AddHook { hook_name: String, cmd_name: String, trigger: OpType, key: String },
    /// Remove the hook called `hook_name`.
    DelHook { hook_name: String },
}

/// What a request has to show its user.
pub enum Reply {
    /// A value that was read or removed; nothing when the key was absent.
    Value(Option<String>),
    /// The request succeeded and has nothing to show.
    Done,
    /// The named command exists: hand its text to the shell.
    RunCommand { cmd_name: String, cmd: String },
    /// No command has that name.
    UnknownCommand { cmd_name: String },
    /// A change to the hooks was refused.
    Rejected(HookError),
}

/// The operation and key whose hooks fire once a request is done.
pub struct Trigger {
    pub key: String,
    pub op: OpType,
}

/// The result of a request on the store.
pub struct Outcome {
    pub reply: Reply,
    /// Whether the store was changed and must be written back.
    pub save: bool,
    /// Whose hooks to run afterwards, if any.
    pub trigger: Option<Trigger>,
}

/// `t` names the operation `op` on `key`.
pub open spec fn triggers(t: Option<Trigger>, key: Seq<char>, op: OpType) -> bool {
    t matches Some(tr) && tr.key@ == key && tr.op == op
}

/// `r` shows the value `v`.
pub open spec fn shows_value(r: Reply, v: Option<Seq<char>>) -> bool {
    r matches Reply::Value(o) && opt_view(o) == v
}

/// What `run` does to a store whose view is `s` for a request, and what it
/// answers.
pub open spec fn run_post(s: StoreView, req: Request, s2: StoreView, o: Outcome) -> bool {
    match req {
        Request::Get { key } => {
            &&& s2 == s
            &&& shows_value(o.reply, lookup(s.kvs, key@))
            &&& !o.save
            &&& triggers(o.trigger, key@, OpType::Get)
        },
        Request::Put { key, val } => {
            &&& s2 == with_value(s, key@, val@)
            &&& o.reply is Done
            &&& o.save
            &&& triggers(o.trigger, key@, OpType::Put)
        },
        Request::Del { key } => {
            &&& s2 == without_value(s, key@)
            &&& shows_value(o.reply, lookup(s.kvs, key@))
            &&& o.save
            &&& triggers(o.trigger, key@, OpType::Del)
        },
        Request::RunCmd { cmd_name } => {
            &&& s2 == s
            &&& !o.save
            &&& o.trigger is None
            &&& if s.cmds.contains_key(cmd_name@) {
                o.reply matches Reply::RunCommand { cmd_name: n, cmd } && n@ == cmd_name@ && cmd@
                    == s.cmds[cmd_name@]
            } else {
                o.reply matches Reply::UnknownCommand { cmd_name: n } && n@ == cmd_name@
            }
        },
        Request::AddCmd { cmd_name, cmd_value } => {
            &&& s2 == with_command(s, cmd_name@, cmd_value@)
            &&& o.reply is Done
            &&& o.save
            &&& o.trigger is None
        },
        Request::AddHook { hook_name, cmd_name, trigger, key } => {
            &&& o.trigger is None
            &&& if has_hook(s.hooks, hook_name@) {
                &&& s2 == s
                &&& o.reply == Reply::Rejected(HookError::DuplicateHookName)
                &&& !o.save
            } else {
                &&& s2 == (StoreView {
                    hooks: s.hooks.push(
                        HookView {
                            name: hook_name@,
                            cmd_name: cmd_name@,
                            run_on: trigger,
                            key: key@,
                        },
                    ),
                    ..s
                })
                &&& o.reply is Done
                &&& o.save
            }
        },
        Request::DelHook { hook_name } => {
            &&& o.trigger is None
            &&& if has_hook(s.hooks, hook_name@) {
                &&& exists|i: int|
                    0 <= i < s.hooks.len() && (#[trigger] s.hooks[i]).name == hook_name@ && s2 == (
                    StoreView { hooks: s.hooks.remove(i), ..s })
                &&& o.reply is Done
                &&& o.save
            } else {
                &&& s2 == s
                &&& o.reply == Reply::Rejected(HookError::HookNotFound)
                &&& !o.save
            }
        },
    }
}

/// Carries out one request on the store: at most one change, and an answer
/// that says what to show, whether to write the store back, and whose hooks
/// to run.
pub fn run(store: &mut KVStore, req: Request) -> (o: Outcome)
    ensures
        run_post(old(store)@, req, final(store)@, o),
{
    match req {
        Request::Get { key } => {
            let value = get_key(key.as_str(), store.kvs());
            Outcome {
                reply: Reply::Value(value),
                save: false,
                trigger: Some(Trigger { key, op: OpType::Get }),
            }
        },
        Request::Put { key, val } => {
            store.set_value(key.as_str(), val.as_str());
            Outcome { reply: Reply::Done, save: true, trigger: Some(Trigger { key, op: OpType::Put }) }
        },
        Request::Del { key } => {
            let value = store.del_value(key.as_str());
            Outcome {
                reply: Reply::Value(value),
                save: true,
                trigger: Some(Trigger { key, op: OpType::Del }),
            }
        },
        Request::RunCmd { cmd_name } => {
            let reply = match get_key(cmd_name.as_str(), store.cmds()) {
                Some(cmd) => Reply::RunCommand { cmd_name, cmd },
                None => Reply::UnknownCommand { cmd_name },
            };
            Outcome { reply, save: false, trigger: None }
        },
        Request::AddCmd { cmd_name, cmd_value } => {
            store.set_command(cmd_name.as_str(), cmd_value.as_str());
            Outcome { reply: Reply::Done, save: true, trigger: None }
        },
        Request::AddHook { hook_name, cmd_name, trigger, key } => {
            match add_hook(store, hook_name, cmd_name, trigger, key) {
                Ok(()) => Outcome { reply: Reply::Done, save: true, trigger: None },
                Err(e) => Outcome { reply: Reply::Rejected(e), save: false, trigger: None },
            }
        },
        Request::DelHook { hook_name } => {
            match rm_hook(store, hook_name.as_str()) {
                Ok(()) => Outcome { reply: Reply::Done, save: true, trigger: None },
                Err(e) => Outcome { reply: Reply::Rejected(e), save: false, trigger: None },
            }
        },
    }
}

} // verus!
