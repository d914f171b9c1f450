//! Vocabulary hints for the transcriber, per focused application.
use vstd::prelude::*;

use crate::text::{
    chars_of, contains_chars, contains_seq, join, join_chars, lowercase, string_from_chars,
    to_lowercase, trim, trim_chars, views,
};

verus! {

/// The hint words of the per-app entries whose (lower-cased) name occurs in
/// the lower-cased focused application name, in entry order.
pub open spec fn app_words(per_app: Seq<(String, Vec<String>)>, app: Seq<char>) -> Seq<Seq<char>>
    decreases per_app.len(),
{
    if per_app.len() == 0 {
        Seq::empty()
    } else {
        let prev = app_words(per_app.drop_last(), app);
        let (k, v) = per_app.last();
        if contains_seq(lowercase(app), lowercase(k@)) {
            prev + v@.map_values(|s: String| s@)
        } else {
            prev
        }
    }
}

/// Whether `a` sorts strictly before `b`, character by character (the order
/// of `String` keys in a `BTreeMap`).
pub open spec fn str_less(a: Seq<char>, b: Seq<char>) -> bool
    decreases a.len(),
{
    if a.len() == 0 {
        b.len() > 0
    } else if b.len() == 0 {
        false
    } else if a[0] != b[0] {
        a[0] < b[0]
    } else {
        str_less(a.drop_first(), b.drop_first())
    }
}

/// The entries' application names are strictly ascending, as the keys of a
/// map are walked.
pub open spec fn keys_ascending(per_app: Seq<(String, Vec<String>)>) -> bool {
    forall|i: int, j: int| 0 <= i < j < per_app.len() ==> str_less(per_app[i].0@, per_app[j].0@)
}

/// All hint words: the global ones, then those of the matching apps.
pub open spec fn prompt_words(
    global: Seq<String>,
    per_app: Seq<(String, Vec<String>)>,
    focused: Option<Seq<char>>,
) -> Seq<Seq<char>> {
    global.map_values(|s: String| s@) + match focused {
        Some(app) => app_words(per_app, app),
        None => Seq::empty(),
    }
}

/// Combines the global hints with the hints of the focused application
/// (`per_app` holds a map's entries in key order), separated by `", "`;
/// `None` when there are no hints at all.
pub fn build_prompt(global: &[String], per_app: &[(String, Vec<String>)], focused: Option<&str>) -> (r:
    Option<String>)
    requires
        keys_ascending(per_app@),
    ensures
        ({
            let ws = prompt_words(
                global@,
                per_app@,
                match focused {
                    Some(a) => Some(a@),
                    None => None,
                },
            );
            &&& ws.len() == 0 ==> r is None
            &&& ws.len() > 0 ==> r is Some && r->Some_0@ == join(ws, ", "@)
        }),
{
    let mut words: Vec<Vec<char>> = Vec::new();
    let mut i: usize = 0;
    while i < global.len()
        invariant
            i <= global.len(),
            views(words@) == global@.take(i as int).map_values(|s: String| s@),
        decreases global.len() - i,
    {
        let w = chars_of(global[i].as_str());
        words.push(w);
        assert(global@.take(i + 1).map_values(|s: String| s@) =~= global@.take(i as int).map_values(
            |s: String| s@,
        ).push(global@[i as int]@));
        assert(views(words@) =~= global@.take(i + 1).map_values(|s: String| s@));
        i = i + 1;
    }
    assert(global@.take(global.len() as int) =~= global@);
    let ghost g = global@.map_values(|s: String| s@);
    if let Some(app) = focused {
        let key_s = to_lowercase(app);
        let key = chars_of(key_s.as_str());
        let mut k: usize = 0;
        while k < per_app.len()
            invariant
                k <= per_app.len(),
                key@ == lowercase(app@),
                g == global@.map_values(|s: String| s@),
                views(words@) == g + app_words(per_app@.take(k as int), app@),
            decreases per_app.len() - k,
        {
            let ghost t = per_app@.take(k + 1);
            assert(t.drop_last() =~= per_app@.take(k as int));
            assert(t.last() == per_app@[k as int]);
            let name_s = to_lowercase(per_app[k].0.as_str());
            let name = chars_of(name_s.as_str());
            if contains_chars(key.as_slice(), name.as_slice()) {
                let hints = &per_app[k].1;
                let ghost before = views(words@);
                let mut j: usize = 0;
                while j < hints.len()
                    invariant
                        j <= hints.len(),
                        views(words@) == before + hints@.take(j as int).map_values(|s: String| s@),
                    decreases hints.len() - j,
                {
                    let w = chars_of(hints[j].as_str());
                    let ghost wb = words@;
                    let ghost wv = w@;
                    words.push(w);
                    assert(views(words@) =~= views(wb).push(wv));
                    assert(hints@.take(j + 1).map_values(|s: String| s@) =~= hints@.take(
                        j as int,
                    ).map_values(|s: String| s@).push(hints@[j as int]@));
                    assert(views(words@) =~= before + hints@.take(j + 1).map_values(
                        |s: String| s@,
                    ));
                    j = j + 1;
                }
                assert(hints@.take(hints.len() as int) =~= hints@);
                assert(views(words@) =~= g + app_words(t, app@));
            }
            k = k + 1;
        }
        assert(per_app@.take(per_app.len() as int) =~= per_app@);
    } else {
        assert(views(words@) =~= prompt_words(global@, per_app@, None));
    }
    if words.len() == 0 {
        None
    } else {
        let sep = chars_of(", ");
        let joined = join_chars(&words, sep.as_slice());
        Some(string_from_chars(joined))
    }
}


/// A node of the compositor's window tree, as far as focus detection
/// reads it.
pub struct WindowNode {
    /// The node's `focused` flag, when it has one.
    pub focused: Option<bool>,
    /// The node's `name`, when it has one.
    pub name: Option<String>,
    /// Tiled children.
    pub nodes: Vec<WindowNode>,
    /// Floating children.
    pub floating_nodes: Vec<WindowNode>,
}

/// The focused node of a tree in depth-first order: the node itself, then
/// its tiled children, then its floating children.
pub open spec fn focused_node(n: WindowNode) -> Option<WindowNode>
    decreases n, 1nat,
{
    if n.focused == Some(true) {
        Some(n)
    } else {
        match first_focused(n.nodes@) {
            Some(f) => Some(f),
            None => first_focused(n.floating_nodes@),
        }
    }
}

/// The first focused node among a list of subtrees.
pub open spec fn first_focused(kids: Seq<WindowNode>) -> Option<WindowNode>
    decreases kids, 0nat,
{
    if kids.len() == 0 {
        None
    } else {
        match focused_node(kids[0]) {
            Some(f) => Some(f),
            None => first_focused(kids.drop_first()),
        }
    }
}


/// Finds the focused node of a window tree, depth first.
pub fn find_focused(node: &WindowNode) -> (r: Option<&WindowNode>)
    ensures
        match r {
            Some(x) => focused_node(*node) == Some(*x),
            None => focused_node(*node) is None,
        },
    decreases *node, 1nat,
{
    if node.focused == Some(true) {
        return Some(node);
    }
    match find_first_focused(&node.nodes) {
        Some(f) => Some(f),
        None => find_first_focused(&node.floating_nodes),
    }
}

fn find_first_focused(kids: &Vec<WindowNode>) -> (r: Option<&WindowNode>)
    ensures
        match r {
            Some(x) => first_focused(kids@) == Some(*x),
            None => first_focused(kids@) is None,
        },
    decreases kids@, 0nat,
{
    let mut i: usize = 0;
    assert(kids@.skip(0) =~= kids@);
    while i < kids.len()
        invariant
            i <= kids@.len(),
            first_focused(kids@) == first_focused(kids@.skip(i as int)),
        decreases kids@.len() - i,
    {
        let ghost rest = kids@.skip(i as int);
        assert(rest[0] == kids@[i as int]);
        assert(rest.drop_first() =~= kids@.skip(i + 1));
        match find_focused(&kids[i]) {
            Some(f) => {
                return Some(f);
            },
            None => {},
        }
        i = i + 1;
    }
    assert(kids@.skip(i as int).len() == 0);
    None
}

/// The name of the focused window of a tree, when the focused node has one.
pub fn focused_window_name(tree: &WindowNode) -> (r: Option<String>)
    ensures
        match focused_node(*tree) {
            Some(n) => match n.name {
                Some(s) => r is Some && r->Some_0@ == s@,
                None => r is None,
            },
            None => r is None,
        },
{
    match find_focused(tree) {
        Some(n) => match &n.name {
            Some(s) => Some(s.clone()),
            None => None,
        },
        None => None,
    }
}

/// The application name printed by a helper command: its output trimmed,
/// or nothing when that is empty.
pub fn name_from_output(stdout: &str) -> (r: Option<String>)
    ensures
        trim(stdout@).len() == 0 ==> r is None,
        trim(stdout@).len() > 0 ==> r is Some && r->Some_0@ == trim(stdout@),
{
    let v = chars_of(stdout);
    let t = trim_chars(v.as_slice());
    if t.len() == 0 {
        None
    } else {
        Some(string_from_chars(t))
    }
}

} // verus!
