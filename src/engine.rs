use vstd::prelude::*;
use crate::op::OpType;
use crate::store::{Hook, HookView, KVStore};

verus! {

/// What to do for one hook that fires.
pub enum HookAction {
    /// Hand the text of the command `cmd_name` to the shell.
    Run { cmd_name: String, cmd: String },
    /// The hook names a command that does not exist.
    BadHook { hook_name: String },
}

/// The mathematical value of a hook action.
pub enum ActionView {
    Run { cmd_name: Seq<char>, cmd: Seq<char> },
    BadHook { hook_name: Seq<char> },
}

impl View for HookAction {
    type V = ActionView;

    open spec fn view(&self) -> ActionView {
        match self {
            HookAction::Run { cmd_name, cmd } => ActionView::Run { cmd_name: cmd_name@, cmd: cmd@ },
            HookAction::BadHook { hook_name } => ActionView::BadHook { hook_name: hook_name@ },
        }
    }
}

/// The views of a sequence of actions.
pub open spec fn actions_view(a: Seq<HookAction>) -> Seq<ActionView> {
    a.map_values(|x: HookAction| x@)
}

/// Whether hook `h` fires for operation `op` on `key`: the kinds are equal and
/// the keys are equal as text.
pub open spec fn fires(h: HookView, key: Seq<char>, op: OpType) -> bool {
    h.run_on == op && h.key == key
}

/// The action for a hook that fires: run its command if `cmds` has it, else
/// report the hook as bad.
pub open spec fn action_for(h: HookView, cmds: Map<Seq<char>, Seq<char>>) -> ActionView {
    if cmds.contains_key(h.cmd_name) {
        ActionView::Run { cmd_name: h.cmd_name, cmd: cmds[h.cmd_name] }
    } else {
        ActionView::BadHook { hook_name: h.name }
    }
}

/// The actions for the hooks of `hooks` that fire, in the order of `hooks`.
pub open spec fn planned(
    hooks: Seq<HookView>,
    cmds: Map<Seq<char>, Seq<char>>,
    key: Seq<char>,
    op: OpType,
) -> Seq<ActionView>
    decreases hooks.len(),
{
    if hooks.len() == 0 {
        Seq::empty()
    } else {
        let rest = planned(hooks.drop_last(), cmds, key, op);
        if fires(hooks.last(), key, op) {
            rest.push(action_for(hooks.last(), cmds))
        } else {
            rest
        }
    }
}

/// The actions that an operation `current_op` on `key_name` sets off in
/// `store`: one for each hook that fires, in the order of the hooks.
pub fn hooks_to_run(store: &KVStore, key_name: &str, current_op: OpType) -> (r: Vec<HookAction>)
    ensures
        actions_view(r@) == planned(store@.hooks, store@.cmds, key_name@, current_op),
{
    let hooks = store.hooks();
    let cmds = store.cmds();
    let key = key_name.to_owned();
    let mut out: Vec<HookAction> = Vec::new();
    let mut i: usize = 0;
    while i < hooks.len()
        invariant
            i <= hooks.len(),
            crate::store::hooks_view(hooks@) == store@.hooks,
            cmds@ == store@.cmds,
            key@ == key_name@,
            actions_view(out@) == planned(store@.hooks.subrange(0, i as int), cmds@, key@, current_op),
        decreases hooks.len() - i,
    {
        let h: &Hook = &hooks[i];
        let ghost hv = store@.hooks;
        proof {
            assert(hv.subrange(0, i + 1).drop_last() =~= hv.subrange(0, i as int));
            assert(hv.subrange(0, i + 1).last() == h@);
        }
        if h.run_on == current_op && h.key == key {
            let action = match crate::kvmap::get_key(h.cmd_name.as_str(), cmds) {
                Some(cmd) => HookAction::Run { cmd_name: h.cmd_name.clone(), cmd },
                None => HookAction::BadHook { hook_name: h.name.clone() },
            };
            let ghost before = out@;
            out.push(action);
            proof {
                assert(actions_view(out@) =~= actions_view(before).push(out@.last()@));
            }
        }
        i = i + 1;
    }
    proof {
        assert(store@.hooks.subrange(0, i as int) =~= store@.hooks);
    }
    out
}

/// The shell that runs commands: the one the environment names, else `bash`.
pub fn shell_or_default(var: Option<String>) -> (r: String)
    ensures
        r@ == (match var {
            Some(s) => s@,
            None => seq!['b', 'a', 's', 'h'],
        }),
{
    match var {
        Some(s) => s,
        None => {
            proof {
                reveal_strlit("bash");
            }
            let r = "bash".to_owned();
            proof {
                assert(r@ =~= seq!['b', 'a', 's', 'h']);
            }
            r
        },
    }
}

} // verus!
