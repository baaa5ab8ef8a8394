//! The focus observer's decision logic: which application the window
//! manager's node tree says is focused, and which runtime-directory entry is
//! the window manager's socket.
//!
//! The IPC itself lives outside the library; the caller flattens the window
//! manager's reply into a list of [`NodeInfo`] records (in tree order) and
//! hands it in.

use vstd::prelude::*;

verus! {

/// What the library reads of one window node: whether it is focused, its
/// application identifier, and its window class.
pub struct NodeInfo {
    /// Whether the window manager marks this node as the focused one.
    pub focused: bool,
    /// The node's application identifier, when it has one.
    pub app_id: Option<String>,
    /// The node's window class, the fallback identifier.
    pub window_class: Option<String>,
}

/// The identifier one node offers: its application identifier when present,
/// its window class otherwise.
pub open spec fn spec_node_target(node: NodeInfo) -> Option<Seq<char>> {
    match node.app_id {
        Some(app) => Some(app@),
        None => node.window_class.deep_view(),
    }
}

/// The identifier of the first focused node, or `None` when no node is
/// focused (or the first focused node offers no identifier).
pub open spec fn spec_current_application(nodes: Seq<NodeInfo>) -> Option<Seq<char>>
    decreases nodes.len(),
{
    if nodes.len() == 0 {
        None
    } else if nodes[0].focused {
        spec_node_target(nodes[0])
    } else {
        spec_current_application(nodes.drop_first())
    }
}

/// The identifier of the currently focused application, extracted from the
/// window manager's nodes in tree order: the first focused node's application
/// identifier, falling back to its window class.
pub fn current_application(nodes: &Vec<NodeInfo>) -> (r: Option<String>)
    ensures
        r.deep_view() == spec_current_application(nodes@),
{
    let n = nodes.len();
    let mut i: usize = 0;
    proof {
        assert(nodes@.skip(0) =~= nodes@);
    }
    while i < n
        invariant
            n == nodes@.len(),
            i <= n,
            spec_current_application(nodes@) == spec_current_application(nodes@.skip(i as int)),
        decreases n - i,
    {
        proof {
            assert(nodes@.skip(i as int).drop_first() =~= nodes@.skip(i + 1));
            assert(nodes@.skip(i as int)[0] == nodes@[i as int]);
        }
        if nodes[i].focused {
            return match &nodes[i].app_id {
                Some(app) => Some(app.clone()),
                None => match &nodes[i].window_class {
                    Some(class) => Some(class.clone()),
                    None => None,
                },
            };
        }
        i = i + 1;
    }
    proof {
        assert(nodes@.skip(n as int) =~= Seq::<NodeInfo>::empty());
    }
    None
}

/// The fixed name prefix that marks a runtime-directory entry as the window
/// manager's socket.
pub open spec fn socket_prefix() -> Seq<char> {
    "sway-ipc."@
}

/// Whether `name` starts with the socket prefix.
pub open spec fn spec_is_socket_name(name: Seq<char>) -> bool {
    name.len() >= socket_prefix().len() && name.take(socket_prefix().len() as int)
        == socket_prefix()
}

/// The first entry name that starts with the socket prefix, or `None` when
/// none does.
pub open spec fn spec_find_socket(names: Seq<Seq<char>>) -> Option<Seq<char>>
    decreases names.len(),
{
    if names.len() == 0 {
        None
    } else if spec_is_socket_name(names[0]) {
        Some(names[0])
    } else {
        spec_find_socket(names.drop_first())
    }
}

/// Whether `name` is a socket entry name: it starts with the socket prefix.
pub fn is_socket_name(name: &String) -> (r: bool)
    ensures
        r == spec_is_socket_name(name@),
{
    proof {
        reveal_strlit("sway-ipc.");
    }
    let prefix = crate::text::chars_of("sway-ipc.");
    let name_chars = crate::text::chars_of(name.as_str());
    if name_chars.len() < prefix.len() {
        return false;
    }
    let mut i: usize = 0;
    while i < prefix.len()
        invariant
            prefix@ == socket_prefix(),
            name_chars@ == name@,
            prefix@.len() <= name_chars@.len(),
            i <= prefix@.len(),
            forall|j: int| 0 <= j < i ==> name_chars@[j] == prefix@[j],
        decreases prefix@.len() - i,
    {
        if name_chars[i] != prefix[i] {
            proof {
                assert(name@.take(socket_prefix().len() as int)[i as int] != socket_prefix()[i as int]);
            }
            return false;
        }
        i = i + 1;
    }
    proof {
        assert(name@.take(socket_prefix().len() as int) =~= socket_prefix());
    }
    true
}

/// Scans the runtime directory's entry names, in order, for the window
/// manager's socket: the first name with the socket prefix.
pub fn find_socket(entries: &Vec<String>) -> (r: Option<String>)
    ensures
        r.deep_view() == spec_find_socket(entries.deep_view()),
{
    let n = entries.len();
    let mut i: usize = 0;
    proof {
        assert(entries.deep_view().skip(0) =~= entries.deep_view());
    }
    while i < n
        invariant
            n == entries@.len(),
            i <= n,
            spec_find_socket(entries.deep_view()) == spec_find_socket(
                entries.deep_view().skip(i as int),
            ),
        decreases n - i,
    {
        proof {
            assert(entries.deep_view().skip(i as int).drop_first() =~= entries.deep_view().skip(
                i + 1,
            ));
            assert(entries.deep_view().skip(i as int)[0] == entries.deep_view()[i as int]);
        }
        if is_socket_name(&entries[i]) {
            return Some(entries[i].clone());
        }
        i = i + 1;
    }
    proof {
        assert(entries.deep_view().skip(n as int) =~= Seq::<Seq<char>>::empty());
    }
    None
}

} // verus!
