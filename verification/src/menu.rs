//! The attach menu: which server-panes it lists, in which order and rows, and
//! what its keys mean.

use crate::bytes::{first_where, first_where_is, first_where_none, same_bytes};
use crate::edit::{apply_text_edit, cursor_index, edited, on_boundary, stands_at};
use crate::protocol::{ServerPaneId, ServerPaneInfo};
use crate::text::{is_before, same_text, text_before, text_before_total, text_before_transitive, views};
pub use vstd::hash_set::StringHashSet;
use vstd::prelude::*;

verus! {

/// A server-pane with the key of the group it is listed in.
pub type Listed = (String, ServerPaneInfo);

/// The keys of listed server-panes.
pub open spec fn keys(servers: Seq<Listed>) -> Seq<Seq<char>> {
    Seq::new(servers.len(), |i: int| servers[i].0@)
}

/// The server-panes of a list.
pub open spec fn infos(servers: Seq<Listed>) -> Seq<ServerPaneInfo> {
    Seq::new(servers.len(), |i: int| servers[i].1)
}

/// The key of the group for server-panes whose directory is not known.
pub open spec fn unknown_group() -> Seq<char> {
    "Unknown"@
}

/// The group a server-pane belongs to: its foreground process's directory.
pub open spec fn group_key(server: ServerPaneInfo) -> Seq<char> {
    match server.foreground {
        Some(process) => match process.cwd {
            Some(cwd) => cwd@,
            None => unknown_group(),
        },
        None => unknown_group(),
    }
}

/// Whether a recognised coding tool runs in the foreground.
pub open spec fn is_agent(server: ServerPaneInfo) -> bool {
    match server.foreground {
        Some(process) => process.session_kind is Some,
        None => false,
    }
}

/// The server-panes that the menu shows.
pub open spec fn shown(servers: Seq<ServerPaneInfo>, agents_only: bool) -> Seq<ServerPaneInfo> {
    if agents_only {
        servers.filter(|s: ServerPaneInfo| is_agent(s))
    } else {
        servers
    }
}

/// Keep the server-panes that the menu shows.
pub fn filter_servers_for_menu(servers: Vec<ServerPaneInfo>, agents_only: bool) -> (r: Vec<
    ServerPaneInfo,
>)
    ensures
        r@ == shown(servers@, agents_only),
{
    if !agents_only {
        return servers;
    }
    let ghost all = servers@;
    let ghost p = |s: ServerPaneInfo| is_agent(s);
    let mut out: Vec<ServerPaneInfo> = Vec::new();
    assert(all.take(0).filter(p) =~= Seq::empty()) by {
        reveal(Seq::filter);
    }
    for s in it: servers
        invariant
            it.seq() == all,
            p == (|s: ServerPaneInfo| is_agent(s)),
            out@ == all.take(it.index()).filter(p),
    {
        let keep = match &s.foreground {
            Some(process) => process.session_kind.is_some(),
            None => false,
        };
        proof {
            let i = it.index();
            assert(all.take(i + 1) =~= all.take(i).push(all[i]));
            all.take(i).lemma_filter_push(all[i], p);
        }
        if keep {
            out.push(s);
        }
    }
    assert(all.take(all.len() as int) =~= all);
    out
}

/// Which pinned directories are `key`.
pub open spec fn pinned_as(key: Seq<char>, pinned: Seq<Seq<char>>) -> spec_fn(int) -> bool {
    |i: int| pinned[i] == key
}

/// Where a directory stands among the pinned ones; after all of them if it is
/// not pinned.
pub open spec fn pin_rank(key: Seq<char>, pinned: Seq<Seq<char>>) -> int {
    match first_where(pinned_as(key, pinned), 0, pinned.len() as int) {
        Some(i) => i,
        None => pinned.len() as int,
    }
}

/// Menu order of groups: pinned directories first, in the order they were
/// pinned, the others by name, and the unknown group last.
pub open spec fn group_before(a: Seq<char>, b: Seq<char>, pinned: Seq<Seq<char>>) -> bool {
    if a == unknown_group() {
        false
    } else if b == unknown_group() {
        true
    } else if pin_rank(a, pinned) != pin_rank(b, pinned) {
        pin_rank(a, pinned) < pin_rank(b, pinned)
    } else {
        text_before(a, b)
    }
}

/// Of two different groups exactly one comes first.
pub proof fn group_before_total(a: Seq<char>, b: Seq<char>, pinned: Seq<Seq<char>>)
    ensures
        group_before(a, b, pinned) ==> !group_before(b, a, pinned),
        a == b ==> !group_before(a, b, pinned),
        a != b ==> group_before(a, b, pinned) || group_before(b, a, pinned),
{
    text_before_total(a, b);
}

pub proof fn group_before_transitive(
    a: Seq<char>,
    b: Seq<char>,
    c: Seq<char>,
    pinned: Seq<Seq<char>>,
)
    requires
        group_before(a, b, pinned),
        group_before(b, c, pinned),
    ensures
        group_before(a, c, pinned),
{
    if text_before(a, b) && text_before(b, c) {
        text_before_transitive(a, b, c);
    }
}

/// The members of one group, in the order given.
pub open spec fn group_members(servers: Seq<ServerPaneInfo>, key: Seq<char>) -> Seq<
    ServerPaneInfo,
> {
    servers.filter(|s: ServerPaneInfo| group_key(s) == key)
}

/// Whether no group comes before an earlier one.
pub open spec fn in_group_order(servers: Seq<ServerPaneInfo>, pinned: Seq<Seq<char>>) -> bool {
    forall|i: int, j: int|
        0 <= i < j < servers.len() ==> !group_before(
            #[trigger] group_key(servers[j]),
            #[trigger] group_key(servers[i]),
            pinned,
        )
}

/// Whether `listed` is `servers` in menu order: groups in order, and each
/// group's members as they came.
pub open spec fn grouped(
    servers: Seq<ServerPaneInfo>,
    listed: Seq<Listed>,
    pinned: Seq<Seq<char>>,
) -> bool {
    &&& forall|i: int|
        0 <= i < listed.len() ==> (#[trigger] listed[i]).0@ == group_key(listed[i].1)
    &&& in_group_order(infos(listed), pinned)
    &&& forall|key: Seq<char>|
        #[trigger] group_members(infos(listed), key) == group_members(servers, key)
}

/// Where a directory stands among the pinned ones.
fn rank_of(key: &str, pinned: &Vec<String>) -> (r: usize)
    ensures
        r == pin_rank(key@, views(pinned@)),
{
    let ghost p = pinned_as(key@, views(pinned@));
    let mut i: usize = 0;
    while i < pinned.len()
        invariant
            i <= pinned.len(),
            p == pinned_as(key@, views(pinned@)),
            forall|j: int| 0 <= j < i ==> !#[trigger] p(j),
        decreases pinned.len() - i,
    {
        if same_text(pinned[i].as_str(), key) {
            proof {
                first_where_is(p, 0, pinned@.len() as int, i as int);
            }
            return i;
        }
        i += 1;
    }
    proof {
        first_where_none(p, 0, pinned@.len() as int);
    }
    i
}

/// Whether the group `a` comes before the group `b`.
fn is_group_before(a: &str, b: &str, pinned: &Vec<String>) -> (r: bool)
    ensures
        r == group_before(a@, b@, views(pinned@)),
{
    if same_text(a, "Unknown") {
        return false;
    }
    if same_text(b, "Unknown") {
        return true;
    }
    let rank_a = rank_of(a, pinned);
    let rank_b = rank_of(b, pinned);
    if rank_a != rank_b {
        rank_a < rank_b
    } else {
        is_before(a, b)
    }
}

/// The group a server-pane belongs to.
fn key_of(server: &ServerPaneInfo) -> (r: String)
    ensures
        r@ == group_key(*server),
{
    match &server.foreground {
        Some(process) => match &process.cwd {
            Some(cwd) => cwd.clone(),
            None => "Unknown".to_owned(),
        },
        None => "Unknown".to_owned(),
    }
}

/// Putting `x` in between, where everything behind is of a later group, is like
/// adding it at the end of its group.
proof fn insert_keeps_members(
    left: Seq<ServerPaneInfo>,
    x: ServerPaneInfo,
    right: Seq<ServerPaneInfo>,
    key: Seq<char>,
)
    requires
        forall|i: int|
            0 <= i < right.len() ==> group_key(#[trigger] right[i]) != group_key(x),
    ensures
        group_members(left + seq![x] + right, key) == group_members((left + right).push(x), key),
{
    let p = |s: ServerPaneInfo| group_key(s) == key;
    Seq::filter_distributes_over_add(left + seq![x], right, p);
    Seq::filter_distributes_over_add(left, seq![x], p);
    Seq::filter_distributes_over_add(left, right, p);
    (left + right).lemma_filter_push(x, p);
    assert(seq![x].filter(p) =~= if p(x) {
        seq![x]
    } else {
        Seq::empty()
    }) by {
        Seq::<ServerPaneInfo>::empty().lemma_filter_push(x, p);
        assert(Seq::<ServerPaneInfo>::empty().push(x) =~= seq![x]);
        assert(Seq::<ServerPaneInfo>::empty().filter(p) =~= Seq::empty()) by {
            reveal(Seq::filter);
        }
    }
    if p(x) {
        assert forall|i: int| 0 <= i < right.len() implies !p(#[trigger] right[i]) by {}
        right.lemma_all_neg_filter_empty(p);
        assert((left + seq![x] + right).filter(p) =~= left.filter(p) + seq![x]);
        assert((left + right).push(x).filter(p) =~= left.filter(p) + seq![x]);
    } else {
        assert((left + seq![x] + right).filter(p) =~= left.filter(p) + right.filter(p));
    }
}

/// Put the server-panes in menu order, each with its group's key.
pub fn group_servers_by_cwd(servers: Vec<ServerPaneInfo>, pinned: &Vec<String>) -> (r: Vec<Listed>)
    ensures
        grouped(servers@, r@, views(pinned@)),
{
    let ghost all = servers@;
    let ghost pins = views(pinned@);
    let mut out: Vec<Listed> = Vec::new();
    assert(infos(out@) =~= all.take(0));
    for s in it: servers
        invariant
            it.seq() == all,
            pins == views(pinned@),
            grouped(all.take(it.index()), out@, pins),
    {
        let key = key_of(&s);
        let mut at: usize = out.len();
        while at > 0 && is_group_before(key.as_str(), out[at - 1].0.as_str(), pinned)
            invariant
                at <= out@.len(),
                pins == views(pinned@),
                forall|j: int|
                    at <= j < out@.len() ==> group_before(key@, (#[trigger] out@[j]).0@, pins),
            decreases at,
        {
            at -= 1;
        }
        let ghost before = out@;
        let ghost i = it.index();
        out.insert(at, (key, s));
        proof {
            let left = infos(before).take(at as int);
            let right = infos(before).skip(at as int);
            assert(infos(out@) =~= left + seq![s] + right);
            assert(left + right =~= infos(before));
            assert(all.take(i + 1) =~= all.take(i).push(s));
            assert forall|k: int| 0 <= k < right.len() implies group_key(#[trigger] right[k])
                != group_key(s) by {
                assert(right[k] == before[at + k].1);
                assert(before[at + k].0@ == group_key(before[at + k].1));
                group_before_total(group_key(s), group_key(right[k]), pins);
            }
            assert forall|k: Seq<char>| #[trigger] group_members(infos(out@), k) == group_members(
                all.take(i + 1),
                k,
            ) by {
                insert_keeps_members(left, s, right, k);
                let p = |s: ServerPaneInfo| group_key(s) == k;
                infos(before).lemma_filter_push(s, p);
                all.take(i).lemma_filter_push(s, p);
                assert(group_members(infos(before), k) == group_members(all.take(i), k));
            }
            insert_keeps_order(before, out@, at as int, pins);
        }
    }
    assert(all.take(all.len() as int) =~= all);
    out
}

/// An element put behind everything it does not precede, and in front of
/// everything that follows it, leaves the groups in order.
proof fn insert_keeps_order(
    before: Seq<Listed>,
    after: Seq<Listed>,
    at: int,
    pinned: Seq<Seq<char>>,
)
    requires
        0 <= at <= before.len(),
        after == before.insert(at, after[at]),
        in_group_order(infos(before), pinned),
        forall|i: int|
            0 <= i < before.len() ==> (#[trigger] before[i]).0@ == group_key(before[i].1),
        after[at].0@ == group_key(after[at].1),
        forall|j: int|
            at <= j < before.len() ==> group_before(
                after[at].0@,
                (#[trigger] before[j]).0@,
                pinned,
            ),
        at > 0 ==> !group_before(after[at].0@, before[at - 1].0@, pinned),
    ensures
        in_group_order(infos(after), pinned),
{
    let xs = infos(after);
    let ys = infos(before);
    let x = group_key(after[at].1);
    assert forall|i: int, j: int| 0 <= i < j < xs.len() implies !group_before(
        #[trigger] group_key(xs[j]),
        #[trigger] group_key(xs[i]),
        pinned,
    ) by {
        let bi = if i < at {
            i
        } else {
            i - 1
        };
        let bj = if j < at {
            j
        } else {
            j - 1
        };
        if i != at {
            assert(xs[i] == ys[bi]);
        }
        if j != at {
            assert(xs[j] == ys[bj]);
        }
        if i != at && j != at {
            assert(!group_before(group_key(ys[bj]), group_key(ys[bi]), pinned));
        } else if i == at {
            assert(group_before(x, before[bj].0@, pinned));
            group_before_total(x, group_key(ys[bj]), pinned);
        } else {
            let last = group_key(ys[at - 1]);
            assert(before[at - 1].0@ == last);
            assert(before[i].0@ == group_key(ys[i]));
            if i < at - 1 {
                assert(!group_before(last, group_key(ys[i]), pinned));
            }
            if group_before(x, group_key(ys[i]), pinned) {
                group_before_total(x, last, pinned);
                group_before_total(last, group_key(ys[i]), pinned);
                if i < at - 1 {
                    if x == last {
                    } else {
                        group_before_transitive(last, x, group_key(ys[i]), pinned);
                    }
                }
            }
        }
    }
}

/// One row of the menu, all of which can be selected.
#[derive(Debug, Clone, Copy, PartialEq, Eq, Structural)]
pub enum AttachMenuRow {
    /// A group's header; the index of the group's first member.
    GroupHeader(usize),
    /// A server-pane; its index in the list.
    Server(usize),
    /// A group's own "spawn new" row; the index of the group's first member.
    SpawnNewInGroup(usize),
    SpawnNew,
}

/// Whether a group starts at `i`.
pub open spec fn starts_group(keys: Seq<Seq<char>>, i: int) -> bool {
    i == 0 || keys[i - 1] != keys[i]
}

/// Whether a group ends at `i`.
pub open spec fn ends_group(keys: Seq<Seq<char>>, i: int) -> bool {
    i + 1 == keys.len() || keys[i] != keys[i + 1]
}

/// Where the group of `i` starts.
pub open spec fn group_start(keys: Seq<Seq<char>>, i: int) -> int
    decreases i,
{
    if i <= 0 || starts_group(keys, i) {
        i
    } else {
        group_start(keys, i - 1)
    }
}

/// The rows that the `i`th server-pane brings: its group's header if it is the
/// first, itself, and its group's "spawn new" row if it is the last. A collapsed
/// group keeps its header only, and the unknown group has no "spawn new" row.
pub open spec fn rows_of(keys: Seq<Seq<char>>, collapsed: Set<Seq<char>>, i: int) -> Seq<
    AttachMenuRow,
> {
    let open = !collapsed.contains(keys[i]);
    (if starts_group(keys, i) {
        seq![AttachMenuRow::GroupHeader(i as usize)]
    } else {
        seq![]
    }) + (if open {
        seq![AttachMenuRow::Server(i as usize)]
    } else {
        seq![]
    }) + (if open && ends_group(keys, i) && keys[i] != unknown_group() {
        seq![AttachMenuRow::SpawnNewInGroup(group_start(keys, i) as usize)]
    } else {
        seq![]
    })
}

/// The rows of the first `n` server-panes.
pub open spec fn grouped_rows(keys: Seq<Seq<char>>, collapsed: Set<Seq<char>>, n: int) -> Seq<
    AttachMenuRow,
>
    decreases n,
{
    if n <= 0 {
        seq![]
    } else {
        grouped_rows(keys, collapsed, n - 1) + rows_of(keys, collapsed, n - 1)
    }
}

/// The rows of the menu: those of the server-panes, by group or flat, and the
/// "spawn new" row.
pub open spec fn menu_rows(keys: Seq<Seq<char>>, collapsed: Set<Seq<char>>, grouped: bool) -> Seq<
    AttachMenuRow,
> {
    (if grouped {
        grouped_rows(keys, collapsed, keys.len() as int)
    } else {
        Seq::new(keys.len(), |i: int| AttachMenuRow::Server(i as usize))
    }).push(AttachMenuRow::SpawnNew)
}

/// The rows that the menu shows now.
pub fn visible_attach_menu_rows(
    servers: &Vec<Listed>,
    collapsed: &StringHashSet,
    grouped: bool,
) -> (rows: Vec<AttachMenuRow>)
    ensures
        rows@ == menu_rows(keys(servers@), collapsed@, grouped),
{
    let ghost ks = keys(servers@);
    let mut rows: Vec<AttachMenuRow> = Vec::new();
    let n = servers.len();
    let mut start: usize = 0;
    let mut i: usize = 0;
    while i < n
        invariant
            i <= n,
            n == servers@.len(),
            ks == keys(servers@),
            rows@ =~= if grouped {
                grouped_rows(ks, collapsed@, i as int)
            } else {
                Seq::new(i as nat, |j: int| AttachMenuRow::Server(j as usize))
            },
            grouped && i > 0 ==> start == group_start(ks, i - 1),
        decreases n - i,
    {
        if !grouped {
            rows.push(AttachMenuRow::Server(i));
        } else {
            let ghost before = rows@;
            let key = servers[i].0.as_str();
            let is_open = !collapsed.contains(key);
            let is_start = i == 0 || !same_text(servers[i - 1].0.as_str(), key);
            let is_end = i + 1 == n || !same_text(key, servers[i + 1].0.as_str());
            if is_start {
                start = i;
                rows.push(AttachMenuRow::GroupHeader(i));
            }
            if is_open {
                rows.push(AttachMenuRow::Server(i));
            }
            if is_open && is_end && !same_text(key, "Unknown") {
                rows.push(AttachMenuRow::SpawnNewInGroup(start));
            }
            assert(start == group_start(ks, i as int));
            assert(rows@ =~= before + rows_of(ks, collapsed@, i as int));
        }
        i += 1;
    }
    rows.push(AttachMenuRow::SpawnNew);
    rows
}

/// The index into the list that a row carries.
pub open spec fn row_index(row: AttachMenuRow) -> Option<usize> {
    match row {
        AttachMenuRow::GroupHeader(i) => Some(i),
        AttachMenuRow::Server(i) => Some(i),
        AttachMenuRow::SpawnNewInGroup(i) => Some(i),
        AttachMenuRow::SpawnNew => None,
    }
}

proof fn group_start_is(keys: Seq<Seq<char>>, i: int)
    requires
        0 <= i < keys.len(),
    ensures
        0 <= group_start(keys, i) <= i,
        starts_group(keys, group_start(keys, i)),
        forall|j: int| group_start(keys, i) <= j <= i ==> #[trigger] keys[j] == keys[i],
    decreases i,
{
    if i > 0 && !starts_group(keys, i) {
        group_start_is(keys, i - 1);
    }
}

/// Every row of a server-pane carries an index of its group; and the row of
/// `i` itself is there exactly if its group is open.
proof fn grouped_rows_are(keys: Seq<Seq<char>>, collapsed: Set<Seq<char>>, n: int)
    requires
        0 <= n <= keys.len() <= usize::MAX,
    ensures
        forall|r: int|
            0 <= r < grouped_rows(keys, collapsed, n).len() ==> {
                let row = #[trigger] grouped_rows(keys, collapsed, n)[r];
                match row {
                    AttachMenuRow::GroupHeader(i) => i < n && starts_group(keys, i as int),
                    AttachMenuRow::Server(i) => i < n && !collapsed.contains(keys[i as int]),
                    AttachMenuRow::SpawnNewInGroup(i) => i < n && starts_group(keys, i as int)
                        && !collapsed.contains(keys[i as int]) && keys[i as int]
                        != unknown_group(),
                    AttachMenuRow::SpawnNew => false,
                }
            },
        forall|i: int|
            0 <= i < n && !collapsed.contains(#[trigger] keys[i]) ==> grouped_rows(
                keys,
                collapsed,
                n,
            ).contains(AttachMenuRow::Server(i as usize)),
        forall|i: int|
            0 <= i < n && #[trigger] starts_group(keys, i) ==> grouped_rows(
                keys,
                collapsed,
                n,
            ).contains(AttachMenuRow::GroupHeader(i as usize)),
        forall|i: int|
            0 <= i < n && #[trigger] ends_group(keys, i) && !collapsed.contains(keys[i]) && keys[i]
                != unknown_group() ==> grouped_rows(keys, collapsed, n).contains(
                AttachMenuRow::SpawnNewInGroup(group_start(keys, i) as usize),
            ),
    decreases n,
{
    if n > 0 {
        grouped_rows_are(keys, collapsed, n - 1);
        group_start_is(keys, n - 1);
        let before = grouped_rows(keys, collapsed, n - 1);
        let new = rows_of(keys, collapsed, n - 1);
        let rows = grouped_rows(keys, collapsed, n);
        assert forall|r: int| 0 <= r < rows.len() implies {
            let row = #[trigger] rows[r];
            match row {
                AttachMenuRow::GroupHeader(i) => i < n && starts_group(keys, i as int),
                AttachMenuRow::Server(i) => i < n && !collapsed.contains(keys[i as int]),
                AttachMenuRow::SpawnNewInGroup(i) => i < n && starts_group(keys, i as int)
                    && !collapsed.contains(keys[i as int]) && keys[i as int] != unknown_group(),
                AttachMenuRow::SpawnNew => false,
            }
        } by {
            if r < before.len() {
                assert(rows[r] == before[r]);
            } else {
                assert(rows[r] == new[r - before.len()]);
                assert(keys[group_start(keys, n - 1)] == keys[n - 1]);
            }
        }
        assert forall|i: int| 0 <= i < n && !collapsed.contains(#[trigger] keys[i]) implies
            rows.contains(AttachMenuRow::Server(i as usize)) by {
            let row = AttachMenuRow::Server(i as usize);
            if i < n - 1 {
                assert(before.contains(row));
                let r = choose|r: int| 0 <= r < before.len() && before[r] == row;
                assert(rows[r] == row);
            } else {
                let k: int = if starts_group(keys, n - 1) {
                    1
                } else {
                    0
                };
                assert(new[k] == row);
                assert(rows[before.len() + k] == row);
            }
        }
        assert forall|i: int| 0 <= i < n && #[trigger] starts_group(keys, i) implies
            rows.contains(AttachMenuRow::GroupHeader(i as usize)) by {
            let row = AttachMenuRow::GroupHeader(i as usize);
            if i < n - 1 {
                assert(before.contains(row));
                let r = choose|r: int| 0 <= r < before.len() && before[r] == row;
                assert(rows[r] == row);
            } else {
                assert(new[0] == row);
                assert(rows[before.len() as int] == row);
            }
        }
        assert forall|i: int|
            0 <= i < n && #[trigger] ends_group(keys, i) && !collapsed.contains(keys[i]) && keys[i]
                != unknown_group() implies rows.contains(
            AttachMenuRow::SpawnNewInGroup(group_start(keys, i) as usize),
        ) by {
            let row = AttachMenuRow::SpawnNewInGroup(group_start(keys, i) as usize);
            if i < n - 1 {
                assert(before.contains(row));
                let r = choose|r: int| 0 <= r < before.len() && before[r] == row;
                assert(rows[r] == row);
            } else {
                assert(new.last() == row);
                assert(rows.last() == row);
            }
        }
    }
}

/// Where the group of `i` ends.
spec fn group_end(keys: Seq<Seq<char>>, i: int) -> int
    decreases keys.len() - i,
{
    if i + 1 >= keys.len() || ends_group(keys, i) {
        i
    } else {
        group_end(keys, i + 1)
    }
}

proof fn group_end_is(keys: Seq<Seq<char>>, i: int)
    requires
        0 <= i < keys.len(),
    ensures
        i <= group_end(keys, i) < keys.len(),
        ends_group(keys, group_end(keys, i)),
        group_start(keys, group_end(keys, i)) == group_start(keys, i),
        keys[group_end(keys, i)] == keys[i],
    decreases keys.len() - i,
{
    if i + 1 < keys.len() && !ends_group(keys, i) {
        group_end_is(keys, i + 1);
    }
}

/// The menu always ends in its "spawn new" row, and every other row names a
/// server-pane of the list.
pub proof fn rows_name_listed_panes(
    keys: Seq<Seq<char>>,
    collapsed: Set<Seq<char>>,
    is_grouped: bool,
)
    requires
        keys.len() <= usize::MAX,
    ensures
        menu_rows(keys, collapsed, is_grouped).len() > 0,
        menu_rows(keys, collapsed, is_grouped).last() == AttachMenuRow::SpawnNew,
        forall|r: int|
            0 <= r < menu_rows(keys, collapsed, is_grouped).len() ==> match row_index(
                #[trigger] menu_rows(keys, collapsed, is_grouped)[r],
            ) {
                Some(i) => i < keys.len(),
                None => r == menu_rows(keys, collapsed, is_grouped).len() - 1,
            },
{
    if is_grouped {
        grouped_rows_are(keys, collapsed, keys.len() as int);
        let rows = grouped_rows(keys, collapsed, keys.len() as int);
        assert forall|r: int|
            0 <= r < menu_rows(keys, collapsed, is_grouped).len() implies match row_index(
            #[trigger] menu_rows(keys, collapsed, is_grouped)[r],
        ) {
            Some(i) => i < keys.len(),
            None => r == menu_rows(keys, collapsed, is_grouped).len() - 1,
        } by {
            if r < rows.len() {
                assert(menu_rows(keys, collapsed, is_grouped)[r] == rows[r]);
            }
        }
    }
}

/// A collapsed group shows its header and nothing else; an open one shows every
/// member, and a row to spawn another unless its directory is unknown. A flat
/// menu shows every server-pane and no group.
pub proof fn collapse_hides_all_but_the_header(
    keys: Seq<Seq<char>>,
    collapsed: Set<Seq<char>>,
    i: int,
)
    requires
        0 <= i < keys.len() <= usize::MAX,
    ensures
        menu_rows(keys, collapsed, true).contains(AttachMenuRow::Server(i as usize))
            == !collapsed.contains(keys[i]),
        menu_rows(keys, collapsed, true).contains(
            AttachMenuRow::GroupHeader(group_start(keys, i) as usize),
        ),
        menu_rows(keys, collapsed, true).contains(
            AttachMenuRow::SpawnNewInGroup(group_start(keys, i) as usize),
        ) == (!collapsed.contains(keys[i]) && keys[i] != unknown_group()),
        menu_rows(keys, collapsed, false).contains(AttachMenuRow::Server(i as usize)),
        forall|r: int|
            0 <= r < keys.len() ==> #[trigger] menu_rows(keys, collapsed, false)[r]
                == AttachMenuRow::Server(r as usize),
{
    let n = keys.len() as int;
    grouped_rows_are(keys, collapsed, n);
    group_start_is(keys, i);
    group_end_is(keys, i);
    let rows = grouped_rows(keys, collapsed, n);
    let all = menu_rows(keys, collapsed, true);
    let server = AttachMenuRow::Server(i as usize);
    let header = AttachMenuRow::GroupHeader(group_start(keys, i) as usize);
    let spawn = AttachMenuRow::SpawnNewInGroup(group_start(keys, i) as usize);
    assert(keys[group_start(keys, i)] == keys[i]);
    assert(rows.contains(header));
    let r = choose|r: int| 0 <= r < rows.len() && rows[r] == header;
    assert(all[r] == header);
    if !collapsed.contains(keys[i]) {
        assert(rows.contains(server));
        let r = choose|r: int| 0 <= r < rows.len() && rows[r] == server;
        assert(all[r] == server);
        if keys[i] != unknown_group() {
            assert(rows.contains(spawn));
            let r = choose|r: int| 0 <= r < rows.len() && rows[r] == spawn;
            assert(all[r] == spawn);
        }
    }
    if all.contains(server) {
        let r = choose|r: int| 0 <= r < all.len() && all[r] == server;
        assert(rows[r] == server);
    }
    if all.contains(spawn) {
        let r = choose|r: int| 0 <= r < all.len() && all[r] == spawn;
        assert(rows[r] == spawn);
    }
    assert(menu_rows(keys, collapsed, false)[i] == server);
}

/// Pinned directories come before the others, in the order in which they were
/// pinned, and the unknown group comes last, pinned or not.
pub proof fn pinned_groups_come_first(a: Seq<char>, b: Seq<char>, pinned: Seq<Seq<char>>)
    requires
        a != unknown_group(),
    ensures
        group_before(a, unknown_group(), pinned),
        b != unknown_group() && pinned.contains(a) && !pinned.contains(b) ==> group_before(
            a,
            b,
            pinned,
        ),
        pinned.no_duplicates() && b != unknown_group() ==> forall|i: int, j: int|
            0 <= i < j < pinned.len() && #[trigger] pinned[i] == a && #[trigger] pinned[j] == b
                ==> group_before(a, b, pinned),
        !pinned.contains(a) && !pinned.contains(b) && b != unknown_group() ==> group_before(
            a,
            b,
            pinned,
        ) == text_before(a, b),
{
    let p = pinned_as(a, pinned);
    let q = pinned_as(b, pinned);
    crate::bytes::first_where_props(p, 0, pinned.len() as int);
    crate::bytes::first_where_props(q, 0, pinned.len() as int);
    if pinned.contains(a) {
        let i = choose|i: int| 0 <= i < pinned.len() && pinned[i] == a;
        assert(p(i));
    }
    if pinned.no_duplicates() && b != unknown_group() {
        assert forall|i: int, j: int|
            0 <= i < j < pinned.len() && #[trigger] pinned[i] == a && #[trigger] pinned[j]
                == b implies group_before(a, b, pinned) by {
            assert(p(i) && q(j));
        }
    }
}

/// Grouping neither drops nor adds a server-pane: every one that was given is
/// listed, in the list's part for its group, as often as before.
pub proof fn grouping_keeps_every_pane(
    servers: Seq<ServerPaneInfo>,
    listed: Seq<Listed>,
    pinned: Seq<Seq<char>>,
    server: ServerPaneInfo,
)
    requires
        grouped(servers, listed, pinned),
    ensures
        servers.contains(server) == infos(listed).contains(server),
        servers.filter(|s: ServerPaneInfo| s == server).len() == infos(listed).filter(
            |s: ServerPaneInfo| s == server,
        ).len(),
{
    let key = group_key(server);
    let p = |s: ServerPaneInfo| s == server;
    let g = |s: ServerPaneInfo| group_key(s) == key;
    filter_refines(servers, p, g);
    filter_refines(infos(listed), p, g);
    assert(group_members(infos(listed), key) == group_members(servers, key));
    contains_iff_filter(servers, server);
    contains_iff_filter(infos(listed), server);
}

proof fn filter_refines(
    s: Seq<ServerPaneInfo>,
    p: spec_fn(ServerPaneInfo) -> bool,
    g: spec_fn(ServerPaneInfo) -> bool,
)
    requires
        forall|x: ServerPaneInfo| #[trigger] p(x) ==> g(x),
    ensures
        s.filter(g).filter(p) == s.filter(p),
    decreases s.len(),
{
    if s.len() == 0 {
        assert(s.filter(g) =~= Seq::empty()) by {
            reveal(Seq::filter);
        }
        assert(s =~= Seq::empty());
    } else {
        let rest = s.drop_last();
        let x = s.last();
        filter_refines(rest, p, g);
        assert(s =~= rest.push(x));
        rest.lemma_filter_push(x, g);
        rest.lemma_filter_push(x, p);
        rest.filter(g).lemma_filter_push(x, p);
    }
}

proof fn contains_iff_filter(s: Seq<ServerPaneInfo>, x: ServerPaneInfo)
    ensures
        s.contains(x) == (s.filter(|y: ServerPaneInfo| y == x).len() > 0),
{
    let p = |y: ServerPaneInfo| y == x;
    if s.contains(x) {
        let i = choose|i: int| 0 <= i < s.len() && s[i] == x;
        s.lemma_filter_contains(p, i);
    }
    if s.filter(p).len() > 0 {
        s.lemma_filter_contains_rev(p, s.filter(p)[0]);
        s.lemma_filter_pred(p, 0);
    }
}

/// Where the cursor starts when the menu opens after `previously_bound` was
/// detached: on its row, else on its group's header, else at the top.
pub open spec fn initial_selection(
    servers: Seq<Listed>,
    rows: Seq<AttachMenuRow>,
    previously_bound: Option<ServerPaneId>,
) -> int {
    match previously_bound {
        None => 0,
        Some(id) => match first_where(|i: int| servers[i].1.id == id, 0, servers.len() as int) {
            None => 0,
            Some(at) => match first_where(
                |r: int| rows[r] == AttachMenuRow::Server(at as usize),
                0,
                rows.len() as int,
            ) {
                Some(r) => r,
                None => match first_where(
                    |r: int| is_header_of(servers, rows[r], at),
                    0,
                    rows.len() as int,
                ) {
                    Some(r) => r,
                    None => 0,
                },
            },
        },
    }
}

/// Whether `row` is the header of the group that `servers[at]` is in.
pub open spec fn is_header_of(servers: Seq<Listed>, row: AttachMenuRow, at: int) -> bool {
    row matches AttachMenuRow::GroupHeader(i) && i < servers.len() && servers[i as int].0@
        == servers[at].0@
}

/// The index of the first row equal to `row`.
fn position_of_row(rows: &Vec<AttachMenuRow>, row: AttachMenuRow) -> (r: Option<usize>)
    ensures
        match r {
            Some(i) => first_where(|j: int| rows@[j] == row, 0, rows@.len() as int) == Some(
                i as int,
            ),
            None => first_where(|j: int| rows@[j] == row, 0, rows@.len() as int) is None,
        },
{
    let ghost p = |j: int| rows@[j] == row;
    let mut i: usize = 0;
    while i < rows.len()
        invariant
            i <= rows@.len(),
            p == (|j: int| rows@[j] == row),
            forall|j: int| 0 <= j < i ==> !#[trigger] p(j),
        decreases rows@.len() - i,
    {
        if rows[i] == row {
            proof {
                first_where_is(p, 0, rows@.len() as int, i as int);
            }
            return Some(i);
        }
        i += 1;
    }
    proof {
        first_where_none(p, 0, rows@.len() as int);
    }
    None
}

/// The index of the first header row of the group that `servers[at]` is in.
fn position_of_header(servers: &Vec<Listed>, rows: &Vec<AttachMenuRow>, at: usize) -> (r: Option<
    usize,
>)
    requires
        at < servers@.len(),
    ensures
        match r {
            Some(i) => first_where(
                |j: int| is_header_of(servers@, rows@[j], at as int),
                0,
                rows@.len() as int,
            ) == Some(i as int),
            None => first_where(
                |j: int| is_header_of(servers@, rows@[j], at as int),
                0,
                rows@.len() as int,
            ) is None,
        },
{
    let ghost p = |j: int| is_header_of(servers@, rows@[j], at as int);
    let mut i: usize = 0;
    while i < rows.len()
        invariant
            i <= rows@.len(),
            at < servers@.len(),
            p == (|j: int| is_header_of(servers@, rows@[j], at as int)),
            forall|j: int| 0 <= j < i ==> !#[trigger] p(j),
        decreases rows@.len() - i,
    {
        let is_header = match rows[i] {
            AttachMenuRow::GroupHeader(k) => k < servers.len() && same_text(
                servers[k].0.as_str(),
                servers[at].0.as_str(),
            ),
            _ => false,
        };
        if is_header {
            proof {
                first_where_is(p, 0, rows@.len() as int, i as int);
            }
            return Some(i);
        }
        i += 1;
    }
    proof {
        first_where_none(p, 0, rows@.len() as int);
    }
    None
}

/// The index of the first server-pane with this id.
fn position_of_server(servers: &Vec<Listed>, id: ServerPaneId) -> (r: Option<usize>)
    ensures
        match r {
            Some(i) => i < servers@.len() && first_where(
                |j: int| servers@[j].1.id == id,
                0,
                servers@.len() as int,
            ) == Some(i as int),
            None => first_where(
                |j: int| servers@[j].1.id == id,
                0,
                servers@.len() as int,
            ) is None,
        },
{
    let ghost p = |j: int| servers@[j].1.id == id;
    let mut i: usize = 0;
    while i < servers.len()
        invariant
            i <= servers@.len(),
            p == (|j: int| servers@[j].1.id == id),
            forall|j: int| 0 <= j < i ==> !#[trigger] p(j),
        decreases servers@.len() - i,
    {
        if servers[i].1.id == id {
            proof {
                first_where_is(p, 0, servers@.len() as int, i as int);
            }
            return Some(i);
        }
        i += 1;
    }
    proof {
        first_where_none(p, 0, servers@.len() as int);
    }
    None
}

/// Where the cursor starts when the menu opens after `previously_bound` was
/// detached.
pub fn initial_selection_for(
    servers: &Vec<Listed>,
    collapsed: &StringHashSet,
    grouped: bool,
    previously_bound: Option<ServerPaneId>,
) -> (r: usize)
    ensures
        r == initial_selection(
            servers@,
            menu_rows(keys(servers@), collapsed@, grouped),
            previously_bound,
        ),
{
    match previously_bound {
        None => 0,
        Some(id) => match position_of_server(servers, id) {
            None => 0,
            Some(at) => {
                let rows = visible_attach_menu_rows(servers, collapsed, grouped);
                match position_of_row(&rows, AttachMenuRow::Server(at)) {
                    Some(r) => r,
                    None => match position_of_header(servers, &rows, at) {
                        Some(r) => r,
                        None => 0,
                    },
                }
            },
        },
    }
}

/// The cursor starts on the row of the pane that was just detached wherever that
/// row shows, so that Enter attaches it again.
pub proof fn menu_opens_on_detached_pane(
    servers: Seq<Listed>,
    collapsed: Set<Seq<char>>,
    is_grouped: bool,
    at: int,
)
    requires
        0 <= at < servers.len() <= usize::MAX,
        forall|j: int| 0 <= j < at ==> (#[trigger] servers[j]).1.id != servers[at].1.id,
        !is_grouped || !collapsed.contains(servers[at].0@),
    ensures
        ({
            let rows = menu_rows(keys(servers), collapsed, is_grouped);
            let r = initial_selection(servers, rows, Some(servers[at].1.id));
            0 <= r < rows.len() && rows[r] == AttachMenuRow::Server(at as usize)
        }),
{
    let rows = menu_rows(keys(servers), collapsed, is_grouped);
    let id = servers[at].1.id;
    let p = |i: int| servers[i].1.id == id;
    first_where_is(p, 0, servers.len() as int, at);
    collapse_hides_all_but_the_header(keys(servers), collapsed, at);
    let q = |r: int| rows[r] == AttachMenuRow::Server(at as usize);
    crate::bytes::first_where_props(q, 0, rows.len() as int);
    let r = choose|r: int| 0 <= r < rows.len() && rows[r] == AttachMenuRow::Server(at as usize);
    assert(q(r));
}

/// What a key means while the menu is browsed.
#[derive(Debug, Clone, Copy, PartialEq, Eq, Structural)]
pub enum AttachMenuAction {
    Up,
    Down,
    Confirm,
    Cancel,
    Delete,
    StartRename,
    TogglePin,
    ToggleGrouping,
    ToggleAgentsOnly,
    DetachAll,
    Quit,
    Ignore,
}

/// Whether `bytes` is the one character `c`.
pub open spec fn is_key(bytes: Seq<u8>, c: char) -> bool {
    bytes.len() == 1 && bytes[0] == c as u8
}

/// Whether `bytes` is Enter.
pub open spec fn is_enter(bytes: Seq<u8>) -> bool {
    bytes == seq![0x0du8] || bytes == seq![0x0au8]
}

/// Whether `bytes` is a bare Escape.
pub open spec fn is_escape(bytes: Seq<u8>) -> bool {
    bytes == seq![0x1bu8]
}

/// Whether `bytes` is the up arrow or `k`.
pub open spec fn is_up(bytes: Seq<u8>) -> bool {
    bytes == seq![0x1bu8, 0x5b, 0x41] || is_key(bytes, 'k')
}

/// Whether `bytes` is the down arrow or `j`.
pub open spec fn is_down(bytes: Seq<u8>) -> bool {
    bytes == seq![0x1bu8, 0x5b, 0x42] || is_key(bytes, 'j')
}

/// What `bytes` means while the menu is browsed.
pub open spec fn menu_action(bytes: Seq<u8>) -> AttachMenuAction {
    if is_enter(bytes) {
        AttachMenuAction::Confirm
    } else if is_escape(bytes) {
        AttachMenuAction::Cancel
    } else if is_up(bytes) {
        AttachMenuAction::Up
    } else if is_down(bytes) {
        AttachMenuAction::Down
    } else if is_key(bytes, 'x') {
        AttachMenuAction::Delete
    } else if is_key(bytes, 'r') {
        AttachMenuAction::StartRename
    } else if is_key(bytes, 'p') {
        AttachMenuAction::TogglePin
    } else if is_key(bytes, 'f') {
        AttachMenuAction::ToggleAgentsOnly
    } else if is_key(bytes, 'g') {
        AttachMenuAction::ToggleGrouping
    } else if is_key(bytes, 'd') {
        AttachMenuAction::DetachAll
    } else if is_key(bytes, 'q') {
        AttachMenuAction::Quit
    } else {
        AttachMenuAction::Ignore
    }
}

pub fn enter_pressed(bytes: &[u8]) -> (r: bool)
    ensures
        r == is_enter(bytes@),
{
    let cr: [u8; 1] = [0x0d];
    let lf: [u8; 1] = [0x0a];
    assert(cr@ =~= seq![0x0du8]);
    assert(lf@ =~= seq![0x0au8]);
    same_bytes(bytes, &cr) || same_bytes(bytes, &lf)
}

pub fn escape_pressed(bytes: &[u8]) -> (r: bool)
    ensures
        r == is_escape(bytes@),
{
    let esc: [u8; 1] = [0x1b];
    assert(esc@ =~= seq![0x1bu8]);
    same_bytes(bytes, &esc)
}

pub fn key_pressed(bytes: &[u8], c: char) -> (r: bool)
    requires
        (c as u32) < 128,
    ensures
        r == is_key(bytes@, c),
{
    bytes.len() == 1 && bytes[0] == c as u8
}

pub fn up_pressed(bytes: &[u8]) -> (r: bool)
    ensures
        r == is_up(bytes@),
{
    let arrow: [u8; 3] = [0x1b, 0x5b, 0x41];
    assert(arrow@ =~= seq![0x1bu8, 0x5b, 0x41]);
    same_bytes(bytes, &arrow) || key_pressed(bytes, 'k')
}

pub fn down_pressed(bytes: &[u8]) -> (r: bool)
    ensures
        r == is_down(bytes@),
{
    let arrow: [u8; 3] = [0x1b, 0x5b, 0x42];
    assert(arrow@ =~= seq![0x1bu8, 0x5b, 0x42]);
    same_bytes(bytes, &arrow) || key_pressed(bytes, 'j')
}

/// What `bytes` means while the menu is browsed.
pub fn parse_attach_menu_input(bytes: &[u8]) -> (r: AttachMenuAction)
    ensures
        r == menu_action(bytes@),
{
    if enter_pressed(bytes) {
        AttachMenuAction::Confirm
    } else if escape_pressed(bytes) {
        AttachMenuAction::Cancel
    } else if up_pressed(bytes) {
        AttachMenuAction::Up
    } else if down_pressed(bytes) {
        AttachMenuAction::Down
    } else if key_pressed(bytes, 'x') {
        AttachMenuAction::Delete
    } else if key_pressed(bytes, 'r') {
        AttachMenuAction::StartRename
    } else if key_pressed(bytes, 'p') {
        AttachMenuAction::TogglePin
    } else if key_pressed(bytes, 'f') {
        AttachMenuAction::ToggleAgentsOnly
    } else if key_pressed(bytes, 'g') {
        AttachMenuAction::ToggleGrouping
    } else if key_pressed(bytes, 'd') {
        AttachMenuAction::DetachAll
    } else if key_pressed(bytes, 'q') {
        AttachMenuAction::Quit
    } else {
        AttachMenuAction::Ignore
    }
}

/// The field that renames the server-pane `index` of the list.
#[derive(Debug, PartialEq, Eq)]
pub struct RenameState {
    pub index: usize,
    pub text: String,
    pub cursor: usize,
    pub error: Option<String>,
}

/// The field of a group's "spawn new" row, for a command to run there.
#[derive(Debug, PartialEq, Eq)]
pub struct SpawnInGroupState {
    /// The group's first member in the list.
    pub group_server_index: usize,
    pub text: String,
    pub cursor: usize,
    pub error: Option<String>,
}

impl RenameState {
    /// Whether the cursor stands between two characters.
    pub open spec fn wf(self) -> bool {
        on_boundary(self.text@, self.cursor as int)
    }

    /// Whether this is `before` after the input `bytes`.
    pub open spec fn is_edit_of(self, before: RenameState, bytes: Seq<u8>) -> bool {
        match edited(before.text@, cursor_index(before.text@, before.cursor as int), bytes) {
            Some((t, k)) => self.index == before.index && self.text@ == t && stands_at(
                t,
                self.cursor as int,
                k,
            ) && self.error is None,
            None => self == before,
        }
    }
}

impl SpawnInGroupState {
    /// Whether the cursor stands between two characters.
    pub open spec fn wf(self) -> bool {
        on_boundary(self.text@, self.cursor as int)
    }

    /// Whether this is `before` after the input `bytes`.
    pub open spec fn is_edit_of(self, before: SpawnInGroupState, bytes: Seq<u8>) -> bool {
        match edited(before.text@, cursor_index(before.text@, before.cursor as int), bytes) {
            Some((t, k)) => self.group_server_index == before.group_server_index && self.text@ == t
                && stands_at(t, self.cursor as int, k) && self.error is None,
            None => self == before,
        }
    }
}

/// Apply one input chunk to the rename field.
pub fn apply_rename_edit(state: &mut RenameState, bytes: &[u8])
    requires
        old(state).wf(),
    ensures
        final(state).wf(),
        final(state).is_edit_of(*old(state), bytes@),
{
    apply_text_edit(&mut state.text, &mut state.cursor, &mut state.error, bytes);
}

/// Apply one input chunk to a group's spawn field.
pub fn apply_spawn_in_group_edit(state: &mut SpawnInGroupState, bytes: &[u8])
    requires
        old(state).wf(),
    ensures
        final(state).wf(),
        final(state).is_edit_of(*old(state), bytes@),
{
    apply_text_edit(&mut state.text, &mut state.cursor, &mut state.error, bytes);
}

/// The attach menu, while it is open.
#[derive(Debug, PartialEq, Eq)]
pub struct AttachMenu {
    /// The listed server-panes, in menu order.
    pub servers: Vec<Listed>,
    /// Which of the visible rows is selected.
    pub selected: usize,
    /// The server-pane whose deletion waits to be confirmed.
    pub pending_delete: Option<usize>,
    pub rename: Option<RenameState>,
    /// What the focused pane showed before it was detached for this menu.
    pub previously_bound: Option<ServerPaneId>,
    pub spawn_in_group: Option<SpawnInGroupState>,
    /// Whether the pick becomes a new tab, rather than replacing the active one.
    pub adding_tab: bool,
}

impl AttachMenu {
    /// Whether nothing but the rows takes input.
    pub open spec fn is_browsing(self) -> bool {
        self.pending_delete is None && self.rename is None && self.spawn_in_group is None
    }

    /// At most one of an armed deletion and the two fields is there; what it
    /// concerns is listed, and a field's cursor stands between two characters.
    pub open spec fn wf(self) -> bool {
        &&& self.pending_delete matches Some(i) ==> i < self.servers@.len() && self.rename is None
            && self.spawn_in_group is None
        &&& self.rename matches Some(r) ==> r.wf() && r.index < self.servers@.len()
            && self.spawn_in_group is None
        &&& self.spawn_in_group matches Some(f) ==> f.wf() && f.group_server_index
            < self.servers@.len()
    }

    /// A menu in which nothing has been done yet.
    pub open spec fn is_fresh(
        self,
        selected: int,
        previously_bound: Option<ServerPaneId>,
        adding_tab: bool,
    ) -> bool {
        &&& self.is_browsing()
        &&& self.selected == selected
        &&& self.previously_bound == previously_bound
        &&& self.adding_tab == adding_tab
    }

    /// A menu in which nothing has been done yet.
    pub fn opened(
        servers: Vec<Listed>,
        selected: usize,
        previously_bound: Option<ServerPaneId>,
        adding_tab: bool,
    ) -> (r: AttachMenu)
        ensures
            r.servers == servers,
            r.is_fresh(selected as int, previously_bound, adding_tab),
            r.wf(),
    {
        AttachMenu {
            servers,
            selected,
            pending_delete: None,
            rename: None,
            previously_bound,
            spawn_in_group: None,
            adding_tab,
        }
    }
}

} // verus!
