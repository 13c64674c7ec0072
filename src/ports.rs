use vstd::prelude::*;

verus! {

/// The name under which this library registers with the audio-graph host.
pub const JACK_CLIENT_NAME: &'static str = "Art Infinity Radio";

/// What the control surface reports back to its callers.
#[derive(Clone, Copy, Debug, PartialEq, Eq, Structural)]
pub enum RecorderError {
    /// No connection to the audio-graph host could be made.
    HostUnavailable,
    /// A session was asked to start while one is active.
    AlreadyRecording,
    /// A session was asked to stop while none is active.
    NotRecording,
}

/// A source port and the input port registered to receive its audio.
#[derive(Clone, Debug)]
pub struct PortBinding {
    pub source: String,
    pub destination: String,
}

/// Gives `s` the lifetime of the process, for callers that must hand a name
/// to code that outlives every owner. Relies on `String::leak`: the returned
/// slice holds the characters of `s`, and its memory is never freed.
#[verifier::external_body]
pub fn string_to_static_str(s: String) -> (r: &'static str)
    ensures
        r@ == s@,
{
    s.leak()
}

/// Whether a port named `name` is kept under the caller's `selection`.
pub open spec fn is_wanted(selection: Seq<Seq<char>>, name: Seq<char>) -> bool {
    selection.len() == 0 || selection.contains(name)
}

/// The ports of `available` that `selection` keeps, in enumeration order.
pub open spec fn selected(available: Seq<Seq<char>>, selection: Seq<Seq<char>>) -> Seq<Seq<char>>
    decreases available.len(),
{
    if available.len() == 0 {
        seq![]
    } else {
        let rest = selected(available.drop_last(), selection);
        if is_wanted(selection, available.last()) {
            rest.push(available.last())
        } else {
            rest
        }
    }
}

/// `<client name>:<source>`
pub open spec fn destination_text(source: Seq<char>) -> Seq<char> {
    JACK_CLIENT_NAME@ + seq![':'] + source
}

/// The sources whose registration succeeded, in order.
pub open spec fn bound_sources(sources: Seq<Seq<char>>, registered: Seq<bool>) -> Seq<Seq<char>>
    decreases sources.len(),
{
    if sources.len() == 0 || registered.len() != sources.len() {
        seq![]
    } else {
        let rest = bound_sources(sources.drop_last(), registered.drop_last());
        if registered.last() {
            rest.push(sources.last())
        } else {
            rest
        }
    }
}

/// The source names of a binding list.
pub open spec fn binding_sources(bindings: Seq<PortBinding>) -> Seq<Seq<char>> {
    bindings.map_values(|b: PortBinding| b.source@)
}

/// Each binding's destination is named after its source.
pub open spec fn bindings_named(bindings: Seq<PortBinding>) -> bool {
    forall|i: int|
        0 <= i < bindings.len() ==> (#[trigger] bindings[i]).destination@ == destination_text(
            bindings[i].source@,
        )
}

/// Whether `names` holds `name`.
pub fn contains_name(names: &Vec<String>, name: &String) -> (r: bool)
    ensures
        r == names.deep_view().contains(name@),
{
    let mut i: usize = 0;
    while i < names.len()
        invariant
            i <= names.len(),
            forall|k: int| 0 <= k < i ==> names.deep_view()[k] != name@,
        decreases names.len() - i,
    {
        if names[i] == *name {
            assert(names.deep_view()[i as int] == name@);
            return true;
        }
        i = i + 1;
    }
    false
}

/// Keeps the enumerated ports that the selection names, or all of them when
/// the selection is empty.
pub fn select_ports(available: &Vec<String>, selection: &Vec<String>) -> (r: Vec<String>)
    ensures
        r.deep_view() == selected(available.deep_view(), selection.deep_view()),
{
    let ghost avail = available.deep_view();
    let ghost sel = selection.deep_view();
    let mut out: Vec<String> = Vec::new();
    let mut i: usize = 0;
    while i < available.len()
        invariant
            i <= available.len(),
            avail == available.deep_view(),
            sel == selection.deep_view(),
            out.deep_view() == selected(avail.subrange(0, i as int), sel),
        decreases available.len() - i,
    {
        let name = &available[i];
        let wanted = selection.len() == 0 || contains_name(selection, name);
        proof {
            let pre = avail.subrange(0, i + 1);
            assert(pre.drop_last() =~= avail.subrange(0, i as int));
            assert(pre.last() == name@);
        }
        if wanted {
            out.push(name.clone());
        }
        assert(out.deep_view() =~= selected(avail.subrange(0, i + 1), sel));
        i = i + 1;
    }
    assert(avail.subrange(0, available.len() as int) =~= avail);
    out
}

/// A port is bound exactly when the host enumerates it and the selection
/// keeps it.
pub proof fn selection_is_exact(
    available: Seq<Seq<char>>,
    selection: Seq<Seq<char>>,
    name: Seq<char>,
)
    ensures
        selected(available, selection).contains(name) <==> (available.contains(name) && is_wanted(
            selection,
            name,
        )),
    decreases available.len(),
{
    if available.len() > 0 {
        let init = available.drop_last();
        selection_is_exact(init, selection, name);
        assert(available =~= init.push(available.last()));
        if init.contains(name) {
            let k = choose|k: int| 0 <= k < init.len() && init[k] == name;
            assert(available[k] == name);
        }
        if available.contains(name) && name != available.last() {
            let k = choose|k: int| 0 <= k < available.len() && available[k] == name;
            assert(init[k] == name);
        }
        let rest = selected(init, selection);
        if is_wanted(selection, available.last()) {
            assert(rest.push(available.last())[rest.len() as int] == available.last());
            if rest.contains(name) {
                let k = choose|k: int| 0 <= k < rest.len() && rest[k] == name;
                assert(rest.push(available.last())[k] == name);
            }
            if rest.push(available.last()).contains(name) && name != available.last() {
                let k = choose|k: int|
                    0 <= k < rest.len() + 1 && rest.push(available.last())[k] == name;
                assert(rest[k] == name);
            }
        }
    }
}

/// The name of the input port that receives the audio of `source`.
pub fn destination_port_name(source: &str) -> (r: String)
    ensures
        r@ == destination_text(source@),
{
    proof {
        reveal_strlit(":");
    }
    let mut out = String::from_str(JACK_CLIENT_NAME);
    out.append(":");
    out.append(source);
    assert(out@ =~= destination_text(source@));
    out
}

/// Builds the binding list from the outcome of each port registration:
/// `registered[i]` tells whether an input port for `sources[i]` could be
/// registered. Ports that failed are left out; when none is left the session
/// does not start and the result is `None`.
pub fn bind_ports(sources: &Vec<String>, registered: &Vec<bool>) -> (r: Option<Vec<PortBinding>>)
    requires
        sources.len() == registered.len(),
    ensures
        r is None <==> bound_sources(sources.deep_view(), registered@).len() == 0,
        r matches Some(b) ==> binding_sources(b@) == bound_sources(
            sources.deep_view(),
            registered@,
        ) && bindings_named(b@),
{
    let ghost srcs = sources.deep_view();
    let mut out: Vec<PortBinding> = Vec::new();
    let mut i: usize = 0;
    while i < sources.len()
        invariant
            i <= sources.len(),
            sources.len() == registered.len(),
            srcs == sources.deep_view(),
            binding_sources(out@) == bound_sources(
                srcs.subrange(0, i as int),
                registered@.subrange(0, i as int),
            ),
            bindings_named(out@),
        decreases sources.len() - i,
    {
        proof {
            assert(srcs.subrange(0, i + 1).drop_last() =~= srcs.subrange(0, i as int));
            assert(registered@.subrange(0, i + 1).drop_last() =~= registered@.subrange(
                0,
                i as int,
            ));
        }
        if registered[i] {
            let b = PortBinding {
                source: sources[i].clone(),
                destination: destination_port_name(sources[i].as_str()),
            };
            out.push(b);
        }
        assert(binding_sources(out@) =~= bound_sources(
            srcs.subrange(0, i + 1),
            registered@.subrange(0, i + 1),
        ));
        i = i + 1;
    }
    assert(srcs.subrange(0, sources.len() as int) =~= srcs);
    assert(registered@.subrange(0, sources.len() as int) =~= registered@);
    if out.len() == 0 {
        None
    } else {
        Some(out)
    }
}

/// When the selection leaves no port, no binding is made whatever the
/// registrations would report, so no session starts.
pub proof fn empty_selection_binds_nothing(
    available: Seq<Seq<char>>,
    selection: Seq<Seq<char>>,
    registered: Seq<bool>,
)
    requires
        selected(available, selection).len() == 0,
    ensures
        bound_sources(selected(available, selection), registered).len() == 0,
{
}

/// The port list of the host, or `HostUnavailable` when no connection to
/// the host could be made (`None`).
pub fn port_listing(enumerated: Option<Vec<String>>) -> (r: Result<Vec<String>, RecorderError>)
    ensures
        enumerated is None <==> r == Err::<Vec<String>, RecorderError>(
            RecorderError::HostUnavailable,
        ),
        enumerated matches Some(v) ==> r matches Ok(w) && w@ == v@,
{
    match enumerated {
        Some(v) => Ok(v),
        None => Err(RecorderError::HostUnavailable),
    }
}

} // verus!
