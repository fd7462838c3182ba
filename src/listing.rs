use vstd::prelude::*;
use crate::kvmap::{entries_match, KvMap};
use crate::store::{hooks_view, Hook, HookView, KVStore};

verus! {

/// What a listing shows.
#[derive(PartialEq, Eq, Structural, Debug, Clone, Copy)]
pub enum ListSubject {
    Keys,
    Cmds,
    Hooks,
}

/// The text that `tabwriter` makes of `text`: cells split at tabs, padded so
/// that the columns of consecutive lines line up.
pub uninterp spec fn tab_aligned(text: Seq<char>) -> Seq<char>;

/// Relies on tabwriter's `TabWriter` (new, `write_all`, `into_inner`) with its
/// default settings: what it writes depends on the text alone.
#[verifier::external_body]
fn align_columns(text: &str) -> (r: String)
    ensures
        r@ == tab_aligned(text@),
{
    let mut t = tabwriter::TabWriter::new(Vec::new());
    std::io::Write::write_all(&mut t, text.as_bytes()).unwrap();
    String::from_utf8_lossy(&t.into_inner().unwrap()).into_owned()
}

/// The views of a sequence of strings.
pub open spec fn strings_view(v: Seq<String>) -> Seq<Seq<char>> {
    v.map_values(|s: String| s@)
}

/// The lines of `lines`, each but the last followed by a newline.
pub open spec fn joined(lines: Seq<Seq<char>>) -> Seq<char>
    decreases lines.len(),
{
    if lines.len() == 0 {
        Seq::empty()
    } else if lines.len() == 1 {
        lines[0]
    } else {
        joined(lines.drop_last()) + seq!['\n'] + lines.last()
    }
}

/// The column separator of a table row.
pub open spec fn sep() -> Seq<char> {
    "\t--\t"@
}

/// The heading of a table of keys and values.
pub open spec fn kv_header() -> Seq<char> {
    "Key\t--\tValue"@
}

/// The heading of a table of hooks.
pub open spec fn hook_header() -> Seq<char> {
    "Hook Name\t--\tCmd Name\t--\tTrigger\t--\tKey"@
}

/// The row of one key and its value.
pub open spec fn kv_row(e: (String, String)) -> Seq<char> {
    e.0@ + sep() + e.1@
}

/// The row of one hook.
pub open spec fn hook_row(h: HookView) -> Seq<char> {
    h.name + sep() + h.cmd_name + sep() + crate::op::op_token(h.run_on) + sep() + h.key
}

/// The line between the tables of a full listing.
pub open spec fn rule() -> Seq<char> {
    "-------------------"@
}

/// The rows of a table of `map`: the heading, then one row per key, in some
/// order.
pub fn kv_table(map: &KvMap) -> (r: Vec<String>)
    ensures
        exists|es: Seq<(String, String)>|
            entries_match(es, map@) && strings_view(r@) == seq![kv_header()] + es.map_values(
                |e: (String, String)| kv_row(e),
            ),
{
    let es = map.entries();
    let mut out: Vec<String> = Vec::new();
    out.push("Key\t--\tValue".to_owned());
    let mut i: usize = 0;
    while i < es.len()
        invariant
            i <= es.len(),
            strings_view(out@) == seq![kv_header()] + es@.subrange(0, i as int).map_values(
                |e: (String, String)| kv_row(e),
            ),
        decreases es.len() - i,
    {
        let mut row = es[i].0.clone();
        row.append("\t--\t");
        row.append(es[i].1.as_str());
        let ghost before = out@;
        out.push(row);
        proof {
            assert(strings_view(out@) =~= strings_view(before).push(kv_row(es@[i as int])));
            assert(es@.subrange(0, i + 1).map_values(|e: (String, String)| kv_row(e)) =~= es@.subrange(
                0,
                i as int,
            ).map_values(|e: (String, String)| kv_row(e)).push(kv_row(es@[i as int])));
        }
        i = i + 1;
    }
    proof {
        assert(es@.subrange(0, i as int) =~= es@);
    }
    out
}

/// The rows of a table of `hooks`: the heading, then one row per hook, in
/// order.
pub fn hook_table(hooks: &Vec<Hook>) -> (r: Vec<String>)
    ensures
        strings_view(r@) == seq![hook_header()] + hooks_view(hooks@).map_values(
            |h: HookView| hook_row(h),
        ),
{
    let mut out: Vec<String> = Vec::new();
    out.push("Hook Name\t--\tCmd Name\t--\tTrigger\t--\tKey".to_owned());
    let mut i: usize = 0;
    while i < hooks.len()
        invariant
            i <= hooks.len(),
            strings_view(out@) == seq![hook_header()] + hooks_view(hooks@).subrange(
                0,
                i as int,
            ).map_values(|h: HookView| hook_row(h)),
        decreases hooks.len() - i,
    {
        let h = &hooks[i];
        let mut row = h.name.clone();
        row.append("\t--\t");
        row.append(h.cmd_name.as_str());
        row.append("\t--\t");
        row.append(h.run_on.as_str());
        row.append("\t--\t");
        row.append(h.key.as_str());
        let ghost before = out@;
        out.push(row);
        proof {
            let hv = hooks_view(hooks@);
            assert(hv[i as int] == h@);
            assert(strings_view(out@) =~= strings_view(before).push(hook_row(h@)));
            assert(hv.subrange(0, i + 1).map_values(|h: HookView| hook_row(h)) =~= hv.subrange(
                0,
                i as int,
            ).map_values(|h: HookView| hook_row(h)).push(hook_row(h@)));
        }
        i = i + 1;
    }
    proof {
        assert(hooks_view(hooks@).subrange(0, i as int) =~= hooks_view(hooks@));
    }
    out
}

/// The rows of `lines`, joined by newlines and aligned in columns.
pub fn render(lines: &Vec<String>) -> (r: String)
    ensures
        r@ == tab_aligned(joined(strings_view(lines@))),
{
    let mut text = String::new();
    let mut i: usize = 0;
    while i < lines.len()
        invariant
            i <= lines.len(),
            text@ == joined(strings_view(lines@).subrange(0, i as int)),
        decreases lines.len() - i,
    {
        let ghost sv = strings_view(lines@);
        proof {
            assert(sv.subrange(0, i + 1).drop_last() =~= sv.subrange(0, i as int));
        }
        if i > 0 {
            text.append("\n");
            proof {
                reveal_strlit("\n");
            }
        }
        text.append(lines[i].as_str());
        proof {
            if i == 0 {
                assert(text@ =~= joined(sv.subrange(0, 1)));
            } else {
                assert(text@ =~= joined(sv.subrange(0, i + 1)));
            }
        }
        i = i + 1;
    }
    proof {
        assert(strings_view(lines@).subrange(0, i as int) =~= strings_view(lines@));
    }
    align_columns(text.as_str())
}

impl ListSubject {
    /// Reads a subject from `keys`, `cmds` or `hooks`; any other text gives
    /// nothing.
    pub fn parse(s: &str) -> (r: Option<ListSubject>)
        ensures
            r == (if s@ == "keys"@ {
                Some(ListSubject::Keys)
            } else if s@ == "cmds"@ {
                Some(ListSubject::Cmds)
            } else if s@ == "hooks"@ {
                Some(ListSubject::Hooks)
            } else {
                None
            }),
    {
        let t = s.to_owned();
        if t == "keys".to_owned() {
            Some(ListSubject::Keys)
        } else if t == "cmds".to_owned() {
            Some(ListSubject::Cmds)
        } else if t == "hooks".to_owned() {
            Some(ListSubject::Hooks)
        } else {
            None
        }
    }
}

/// The blocks of text that a listing prints, one after another: the aligned
/// table of `subject`, or with no subject the tables of keys, commands and
/// hooks with a rule between each two.
pub fn listing(store: &KVStore, subject: Option<ListSubject>) -> (r: Vec<String>)
    ensures
        ({
            let hooks = tab_aligned(
                joined(seq![hook_header()] + store@.hooks.map_values(|h: HookView| hook_row(h))),
            );
            let kvs_ok = |t: Seq<char>|
                exists|es: Seq<(String, String)>|
                    entries_match(es, store@.kvs) && t == tab_aligned(
                        joined(seq![kv_header()] + strings_view_rows(es)),
                    );
            let cmds_ok = |t: Seq<char>|
                exists|es: Seq<(String, String)>|
                    entries_match(es, store@.cmds) && t == tab_aligned(
                        joined(seq![kv_header()] + strings_view_rows(es)),
                    );
            match subject {
                Some(ListSubject::Keys) => r@.len() == 1 && kvs_ok(r@[0]@),
                Some(ListSubject::Cmds) => r@.len() == 1 && cmds_ok(r@[0]@),
                Some(ListSubject::Hooks) => r@.len() == 1 && r@[0]@ == hooks,
                None => r@.len() == 5 && kvs_ok(r@[0]@) && r@[1]@ == rule() && cmds_ok(r@[2]@)
                    && r@[3]@ == rule() && r@[4]@ == hooks,
            }
        }),
{
    let mut out: Vec<String> = Vec::new();
    match subject {
        Some(ListSubject::Keys) => {
            out.push(render(&kv_table(store.kvs())));
        },
        Some(ListSubject::Cmds) => {
            out.push(render(&kv_table(store.cmds())));
        },
        Some(ListSubject::Hooks) => {
            out.push(render(&hook_table(store.hooks())));
        },
        None => {
            out.push(render(&kv_table(store.kvs())));
            out.push("-------------------".to_owned());
            out.push(render(&kv_table(store.cmds())));
            out.push("-------------------".to_owned());
            out.push(render(&hook_table(store.hooks())));
        },
    }
    out
}

/// The rows of a table of the pairs `es`.
pub open spec fn strings_view_rows(es: Seq<(String, String)>) -> Seq<Seq<char>> {
    es.map_values(|e: (String, String)| kv_row(e))
}

} // verus!
