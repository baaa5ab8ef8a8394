//! The layer policy engine: a pure decision from the current layer, the
//! focused application and the allow-list to the layer the remapper should
//! hold.

use vstd::prelude::*;

use crate::text::contains_string;

verus! {

/// The name of the default layer, fallen back to when the focused
/// application has no layer of its own.
pub open spec fn default_layer() -> Seq<char> {
    "main"@
}

/// The decision: `None` means no change may be issued this cycle (no focus,
/// or the current layer is protected by the allow-list); `Some(layer)` is the
/// layer the remapper should hold — the focused application's own layer when
/// it has one, the default layer otherwise.
pub open spec fn spec_decide(
    current: Seq<char>,
    focused: Option<Seq<char>>,
    allow: Option<Seq<Seq<char>>>,
    apps: Seq<Seq<char>>,
) -> Option<Seq<char>> {
    match focused {
        None => None,
        Some(app) => {
            if allow matches Some(list) && !list.contains(current) {
                None
            } else if apps.contains(app) {
                Some(app)
            } else {
                Some(default_layer())
            }
        },
    }
}

/// Decides what layer the remapper should be commanded to, given the current
/// layer, the currently focused application (if any), the allow-list (if one
/// is configured) and the set of per-application layers. Pure: the result is
/// a function of the arguments alone.
pub fn decide(
    current_layer: &String,
    focused_app: &Option<String>,
    allow_list: &Option<Vec<String>>,
    app_layers: &Vec<String>,
) -> (r: Option<String>)
    ensures
        r.deep_view() == spec_decide(
            current_layer@,
            focused_app.deep_view(),
            allow_list.deep_view(),
            app_layers.deep_view(),
        ),
{
    let app = match focused_app {
        Some(a) => a,
        None => {
            return None;
        },
    };
    if let Some(list) = allow_list {
        if !contains_string(list, current_layer) {
            return None;
        }
    }
    if contains_string(app_layers, app) {
        Some(app.clone())
    } else {
        Some(String::from_str("main"))
    }
}

/// Whether the focused application has a per-application layer of its own,
/// i.e. whether the decided layer is the application's identifier rather than
/// the default layer.
pub fn should_change_layer(cur_win_name: &String, app_layers: &Vec<String>) -> (r: bool)
    ensures
        r == app_layers.deep_view().contains(cur_win_name@),
{
    contains_string(app_layers, cur_win_name)
}

/// Law: with no focused application, no change is decided, whatever the
/// current layer and the allow-list.
pub proof fn lemma_no_focus_no_change(
    current: Seq<char>,
    allow: Option<Seq<Seq<char>>>,
    apps: Seq<Seq<char>>,
)
    ensures
        spec_decide(current, None, allow, apps) is None,
{
}

/// Law: when an allow-list is configured and the current layer is not in it,
/// no change is decided, whatever the focus.
pub proof fn lemma_unlisted_layer_no_change(
    current: Seq<char>,
    focused: Option<Seq<char>>,
    allow_set: Seq<Seq<char>>,
    apps: Seq<Seq<char>>,
)
    requires
        !allow_set.contains(current),
    ensures
        spec_decide(current, focused, Some(allow_set), apps) is None,
{
}

/// Law: a focused application with a per-application layer of its own is the
/// decided layer, provided the current layer is not protected.
pub proof fn lemma_recognized_app_selected(
    current: Seq<char>,
    app: Seq<char>,
    allow: Option<Seq<Seq<char>>>,
    apps: Seq<Seq<char>>,
)
    requires
        apps.contains(app),
        allow matches Some(list) ==> list.contains(current),
    ensures
        spec_decide(current, Some(app), allow, apps) == Some(app),
{
}

/// Law: a focused application without a per-application layer of its own
/// falls back to the default layer, provided the current layer is not
/// protected.
pub proof fn lemma_unrecognized_app_defaults(
    current: Seq<char>,
    app: Seq<char>,
    allow: Option<Seq<Seq<char>>>,
    apps: Seq<Seq<char>>,
)
    requires
        !apps.contains(app),
        allow matches Some(list) ==> list.contains(current),
    ensures
        spec_decide(current, Some(app), allow, apps) == Some(default_layer()),
{
}

/// Law: the decision is a pure function of its inputs; any two results that
/// meet `decide`'s contract on the same inputs are the same.
pub proof fn lemma_decide_idempotent(
    r1: Option<Seq<char>>,
    r2: Option<Seq<char>>,
    current: Seq<char>,
    focused: Option<Seq<char>>,
    allow: Option<Seq<Seq<char>>>,
    apps: Seq<Seq<char>>,
)
    requires
        r1 == spec_decide(current, focused, allow, apps),
        r2 == spec_decide(current, focused, allow, apps),
    ensures
        r1 == r2,
{
}

} // verus!
