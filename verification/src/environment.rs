//! Environment variables of a child process.

use vstd::prelude::*;

verus! {

/// Environment variables, in the order in which they are set. A variable that
/// is set twice has the value that was set last.
pub struct EnvVars {
    pub entries: Vec<(String, String)>,
}

/// The variables after all of `entries` have been set in turn.
pub open spec fn variables(entries: Seq<(String, String)>) -> Map<Seq<char>, Seq<char>>
    decreases entries.len(),
{
    if entries.len() == 0 {
        Map::empty()
    } else {
        let (name, value) = entries.last();
        variables(entries.drop_last()).insert(name@, value@)
    }
}

impl View for EnvVars {
    type V = Map<Seq<char>, Seq<char>>;

    open spec fn view(&self) -> Map<Seq<char>, Seq<char>> {
        variables(self.entries@)
    }
}

proof fn lemma_variables_of_both(a: Seq<(String, String)>, b: Seq<(String, String)>)
    ensures
        variables(a + b) == variables(a).union_prefer_right(variables(b)),
    decreases b.len(),
{
    if b.len() == 0 {
        assert(a + b =~= a);
        assert(variables(a).union_prefer_right(variables(b)) =~= variables(a));
    } else {
        lemma_variables_of_both(a, b.drop_last());
        assert((a + b).drop_last() =~= a + b.drop_last());
        assert(variables(a + b) =~= variables(a).union_prefer_right(variables(b)));
    }
}

impl EnvVars {
    /// No variables.
    pub fn new() -> (r: Self)
        ensures
            r@ == Map::<Seq<char>, Seq<char>>::empty(),
    {
        EnvVars { entries: Vec::new() }
    }

    /// Sets one variable.
    pub fn set(&mut self, name: String, value: String)
        ensures
            final(self)@ == old(self)@.insert(name@, value@),
    {
        self.entries.push((name, value));
        proof {
            assert(self.entries@.drop_last() =~= old(self).entries@);
        }
    }

    /// Sets the variables of `other` over those set so far.
    pub fn set_all(&mut self, other: EnvVars)
        ensures
            final(self)@ == old(self)@.union_prefer_right(other@),
    {
        let mut other = other;
        proof {
            lemma_variables_of_both(self.entries@, other.entries@);
        }
        self.entries.append(&mut other.entries);
    }
}

/// The variables of a background-launched child: the session's, the request's
/// over them, and the launch id over both, under the three names by which the
/// child's windows are found again.
pub open spec fn child_variables(
    session: Map<Seq<char>, Seq<char>>,
    request: Map<Seq<char>, Seq<char>>,
    launch_id: Seq<char>,
) -> Map<Seq<char>, Seq<char>> {
    session.union_prefer_right(request).insert(
        "COSMIC_BACKGROUND_LAUNCH_ID"@,
        launch_id,
    ).insert("XDG_ACTIVATION_TOKEN"@, launch_id).insert("DESKTOP_STARTUP_ID"@, launch_id)
}

/// The names that hold the launch id.
pub open spec fn is_launch_variable(name: Seq<char>) -> bool {
    name == "COSMIC_BACKGROUND_LAUNCH_ID"@ || name == "XDG_ACTIVATION_TOKEN"@ || name
        == "DESKTOP_STARTUP_ID"@
}

/// The variables that a background-launched child is started with.
pub fn child_environment(session: EnvVars, request: EnvVars, launch_id: &String) -> (r: EnvVars)
    ensures
        r@ == child_variables(session@, request@, launch_id@),
{
    let mut env = session;
    env.set_all(request);
    env.set("COSMIC_BACKGROUND_LAUNCH_ID".to_owned(), launch_id.clone());
    env.set("XDG_ACTIVATION_TOKEN".to_owned(), launch_id.clone());
    env.set("DESKTOP_STARTUP_ID".to_owned(), launch_id.clone());
    env
}

/// A child always finds its launch id under all three names, whatever the
/// session or the request put there.
pub proof fn law_child_knows_its_launch(
    session: Map<Seq<char>, Seq<char>>,
    request: Map<Seq<char>, Seq<char>>,
    launch_id: Seq<char>,
    name: Seq<char>,
)
    requires
        is_launch_variable(name),
    ensures
        child_variables(session, request, launch_id).dom().contains(name),
        child_variables(session, request, launch_id)[name] == launch_id,
{
}

/// Every other variable is the request's where the request sets it, and the
/// session's where only the session does; no variable comes from elsewhere.
pub proof fn law_request_overrides_session(
    session: Map<Seq<char>, Seq<char>>,
    request: Map<Seq<char>, Seq<char>>,
    launch_id: Seq<char>,
    name: Seq<char>,
)
    requires
        !is_launch_variable(name),
    ensures
        ({
            let child = child_variables(session, request, launch_id);
            &&& child.dom().contains(name) <==> (session.dom().contains(name)
                || request.dom().contains(name))
            &&& request.dom().contains(name) ==> child[name] == request[name]
            &&& session.dom().contains(name) && !request.dom().contains(name) ==> child[name]
                == session[name]
        }),
{
}

/// The last setting of a variable counts, and a variable that is never set has
/// no value.
pub proof fn law_last_setting_counts(entries: Seq<(String, String)>, i: int, name: Seq<char>)
    ensures
        0 <= i < entries.len() && entries[i].0@ == name && (forall|j: int|
            i < j < entries.len() ==> (#[trigger] entries[j]).0@ != name) ==> {
            &&& variables(entries).dom().contains(name)
            &&& variables(entries)[name] == entries[i].1@
        },
        (forall|j: int| 0 <= j < entries.len() ==> (#[trigger] entries[j]).0@ != name)
            ==> !variables(entries).dom().contains(name),
    decreases entries.len(),
{
    if entries.len() > 0 {
        let rest = entries.drop_last();
        law_last_setting_counts(rest, i, name);
        assert(forall|j: int| 0 <= j < rest.len() ==> rest[j] == entries[j]);
        assert(entries.last() == entries[entries.len() - 1]);
    }
}

/// A child finds the launch id under each of the three names, whatever else is
/// set. Every other variable comes from the request where the request sets it,
/// from the session where only the session does, and from nowhere else.
pub proof fn law_where_a_variable_comes_from(
    session: Map<Seq<char>, Seq<char>>,
    request: Map<Seq<char>, Seq<char>>,
    launch_id: Seq<char>,
    name: Seq<char>,
    value: Seq<char>,
)
    ensures
        ({
            let child = child_variables(session, request, launch_id);
            let own = name == "COSMIC_BACKGROUND_LAUNCH_ID"@ || name == "XDG_ACTIVATION_TOKEN"@
                || name == "DESKTOP_STARTUP_ID"@;
            child.dom().contains(name) && child[name] == value <==> {
                ||| own && value == launch_id
                ||| !own && request.dom().contains(name) && request[name] == value
                ||| !own && !request.dom().contains(name) && session.dom().contains(name)
                    && session[name] == value
            }
        }),
{
}

/// Setting a variable gives it its value, and setting others over it gives it
/// theirs where they have one. No other variable changes.
pub proof fn law_setting_variables(
    one: &mut EnvVars,
    name: String,
    value: String,
    all: &mut EnvVars,
    other: EnvVars,
    which: Seq<char>,
)
    requires
        call_ensures(EnvVars::set, (one, name, value), ()),
        call_ensures(EnvVars::set_all, (all, other), ()),
    ensures
        final(one)@.dom().contains(name@),
        final(one)@[name@] == value@,
        which != name@ ==> {
            &&& final(one)@.dom().contains(which) <==> old(one)@.dom().contains(which)
            &&& old(one)@.dom().contains(which) ==> final(one)@[which] == old(one)@[which]
        },
        final(all)@.dom().contains(which) <==> old(all)@.dom().contains(which)
            || other@.dom().contains(which),
        other@.dom().contains(which) ==> final(all)@[which] == other@[which],
        old(all)@.dom().contains(which) && !other@.dom().contains(which) ==> final(all)@[which]
            == old(all)@[which],
{
}

/// A child is started with the launch id under each of the three names. Every
/// other variable has the request's value where the request sets it, the
/// session's where only the session does, and no value else. Without a setting
/// there are no variables.
pub proof fn law_child_is_started_with(
    none: EnvVars,
    session: EnvVars,
    request: EnvVars,
    launch_id: &String,
    child: EnvVars,
    name: Seq<char>,
    value: Seq<char>,
)
    requires
        call_ensures(EnvVars::new, (), none),
        call_ensures(child_environment, (session, request, launch_id), child),
    ensures
        !none@.dom().contains(name),
        ({
            let own = name == "COSMIC_BACKGROUND_LAUNCH_ID"@ || name == "XDG_ACTIVATION_TOKEN"@
                || name == "DESKTOP_STARTUP_ID"@;
            child@.dom().contains(name) && child@[name] == value <==> {
                ||| own && value == launch_id@
                ||| !own && request@.dom().contains(name) && request@[name] == value
                ||| !own && !request@.dom().contains(name) && session@.dom().contains(name)
                    && session@[name] == value
            }
        }),
{
    law_where_a_variable_comes_from(session@, request@, launch_id@, name, value);
}

} // verus!
