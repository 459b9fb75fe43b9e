//! Which language servers a document is open in, and what they are told of it.
use crate::paths::path_parts;
use crate::paths::same_path;
use crate::strings::str_eq;
use vstd::prelude::*;
use vstd::string::*;

verus! {

/// A language server that a document is open in, by the name that the configuration gives it.
#[derive(Debug)]
pub struct NamedServer {
    pub name: String,
    pub id: u64,
}

/// A language server that was to be started; without an identifier it could not be.
#[derive(Debug)]
pub struct StartedServer {
    pub name: String,
    pub id: Option<u64>,
}

/// The names and identifiers of servers.
pub open spec fn server_views(v: Seq<NamedServer>) -> Seq<(Seq<char>, u64)> {
    v.map_values(|s: NamedServer| (s.name@, s.id))
}

/// The position of the first server from `i` on with a name; the number of servers if there is none.
pub open spec fn position_of(v: Seq<(Seq<char>, u64)>, name: Seq<char>, i: int) -> int
    decreases v.len() - i,
{
    if i < 0 || i >= v.len() {
        v.len() as int
    } else if v[i].0 == name {
        i
    } else {
        position_of(v, name, i + 1)
    }
}

/// The servers with one more. It takes the place of one of the same name.
pub open spec fn with_server(v: Seq<(Seq<char>, u64)>, name: Seq<char>, id: u64) -> Seq<
    (Seq<char>, u64),
> {
    let i = position_of(v, name, 0);
    if i < v.len() {
        v.update(i, (name, id))
    } else {
        v.push((name, id))
    }
}

/// The first `n` servers by name, without those that could not be started. Of several that have
/// one name the last one counts.
pub open spec fn successes(v: Seq<StartedServer>, n: int) -> Seq<(Seq<char>, u64)>
    decreases n,
{
    if n <= 0 {
        Seq::empty()
    } else {
        match v[n - 1].id {
            Some(id) => with_server(successes(v, n - 1), v[n - 1].name@, id),
            None => successes(v, n - 1),
        }
    }
}

/// The identifier of the first server from `i` on with a name.
pub open spec fn server_named(v: Seq<(Seq<char>, u64)>, name: Seq<char>, i: int) -> Option<u64>
    decreases v.len() - i,
{
    if i < 0 || i >= v.len() {
        None
    } else if v[i].0 == name {
        Some(v[i].1)
    } else {
        server_named(v, name, i + 1)
    }
}

/// Those of the first `n` servers that another list does not hold, or holds another server by their
/// name.
pub open spec fn not_among(v: Seq<(Seq<char>, u64)>, other: Seq<(Seq<char>, u64)>, n: int) -> Seq<u64>
    decreases n,
{
    if n <= 0 {
        Seq::empty()
    } else if server_named(other, v[n - 1].0, 0) == Some(v[n - 1].1) {
        not_among(v, other, n - 1)
    } else {
        not_among(v, other, n - 1).push(v[n - 1].1)
    }
}

/// What language servers are told when those of a document change.
#[derive(Debug)]
pub struct LaunchPlan {
    /// The document is closed in these.
    pub close: Vec<u64>,
    /// The document is opened in these.
    pub open: Vec<u64>,
    /// The document is open in these then.
    pub servers: Vec<NamedServer>,
}

fn put_server(v: &mut Vec<NamedServer>, name: String, id: u64)
    ensures
        server_views(final(v)@) == with_server(server_views(old(v)@), name@, id),
{
    let ghost before = v@;
    let ghost text = name@;
    let mut i: usize = 0;
    while i < v.len()
        invariant
            i <= v@.len(),
            v@ == before,
            before == old(v)@,
            text == name@,
            position_of(server_views(before), text, 0) == position_of(
                server_views(before),
                text,
                i as int,
            ),
        decreases v@.len() - i,
    {
        assert(server_views(before)[i as int] == (before[i as int].name@, before[i as int].id));
        if str_eq(v[i].name.as_str(), name.as_str()) {
            v.set(i, NamedServer { name, id });
            assert(server_views(v@) =~= server_views(before).update(i as int, (text, id)));
            return ;
        }
        i = i + 1;
    }
    v.push(NamedServer { name, id });
    assert(server_views(v@) =~= server_views(before).push((text, id)));
}

fn find_server(v: &Vec<NamedServer>, name: &str) -> (r: Option<u64>)
    ensures
        r == server_named(server_views(v@), name@, 0),
{
    let mut i: usize = 0;
    while i < v.len()
        invariant
            i <= v@.len(),
            server_named(server_views(v@), name@, 0) == server_named(
                server_views(v@),
                name@,
                i as int,
            ),
        decreases v@.len() - i,
    {
        assert(server_views(v@)[i as int] == (v@[i as int].name@, v@[i as int].id));
        if str_eq(v[i].name.as_str(), name) {
            return Some(v[i].id);
        }
        i = i + 1;
    }
    None
}

fn difference(v: &Vec<NamedServer>, other: &Vec<NamedServer>) -> (r: Vec<u64>)
    ensures
        r@ == not_among(server_views(v@), server_views(other@), v@.len() as int),
{
    let mut out: Vec<u64> = Vec::new();
    let mut i: usize = 0;
    while i < v.len()
        invariant
            i <= v@.len(),
            out@ == not_among(server_views(v@), server_views(other@), i as int),
        decreases v@.len() - i,
    {
        assert(server_views(v@)[i as int] == (v@[i as int].name@, v@[i as int].id));
        let same = match find_server(other, v[i].name.as_str()) {
            Some(id) => id == v[i].id,
            None => false,
        };
        if !same {
            out.push(v[i].id);
        }
        i = i + 1;
    }
    out
}

/// Decides what happens when language servers are launched for a document that is open in
/// `current`. `has_url` tells whether the document has a file; `started` are the servers of its
/// language. Nothing happens without a file, or if there neither were nor are any servers.
pub fn launch_language_servers(
    enable: bool,
    has_url: bool,
    current: &Vec<NamedServer>,
    started: Vec<StartedServer>,
) -> (r: Option<LaunchPlan>)
    ensures
        ({
            let now = successes(started@, started@.len() as int);
            let before = server_views(current@);
            if !enable || !has_url || (now.len() == 0 && before.len() == 0) {
                r is None
            } else {
                r matches Some(plan) && plan.close@ == not_among(before, now, before.len() as int)
                    && plan.open@ == not_among(now, before, now.len() as int) && server_views(
                    plan.servers@,
                ) == now
            }
        }),
{
    if !enable {
        return None;
    }
    if !has_url {
        return None;
    }
    let ghost all = started@;
    let mut servers: Vec<NamedServer> = Vec::new();
    assert(server_views(servers@) =~= Seq::empty());
    for s in it: started
        invariant
            it.seq() == all,
            server_views(servers@) == successes(all, it.index() as int),
    {
        assert(all[it.index() as int] == s);
        match s.id {
            Some(id) => {
                put_server(&mut servers, s.name, id);
            },
            None => {},
        }
    }
    if servers.len() == 0 && current.len() == 0 {
        return None;
    }
    let close = difference(current, &servers);
    let open = difference(&servers, current);
    Some(LaunchPlan { close, open, servers })
}

/// No two servers have the same name.
pub open spec fn names_differ(v: Seq<(Seq<char>, u64)>) -> bool {
    forall|i: int, j: int| 0 <= i < j < v.len() ==> (#[trigger] v[i]).0 != (#[trigger] v[j]).0
}

proof fn lemma_named_self(v: Seq<(Seq<char>, u64)>, k: int, i: int)
    requires
        names_differ(v),
        0 <= i <= k < v.len(),
    ensures
        server_named(v, v[k].0, i) == Some(v[k].1),
    decreases k - i,
{
    if i < k {
        assert(v[i].0 != v[k].0);
        lemma_named_self(v, k, i + 1);
    }
}

proof fn lemma_none_missing(v: Seq<(Seq<char>, u64)>, n: int)
    requires
        names_differ(v),
        0 <= n <= v.len(),
    ensures
        not_among(v, v, n) == Seq::<u64>::empty(),
    decreases n,
{
    if n > 0 {
        lemma_named_self(v, n - 1, 0);
        lemma_none_missing(v, n - 1);
    }
}

proof fn lemma_position(v: Seq<(Seq<char>, u64)>, name: Seq<char>, i: int)
    requires
        0 <= i <= v.len(),
    ensures
        i <= position_of(v, name, i) <= v.len(),
        position_of(v, name, i) < v.len() ==> v[position_of(v, name, i)].0 == name,
        forall|k: int| i <= k < position_of(v, name, i) ==> (#[trigger] v[k]).0 != name,
    decreases v.len() - i,
{
    if i < v.len() && v[i].0 != name {
        lemma_position(v, name, i + 1);
    }
}

/// A document is opened once in the servers of one name, however many of them were started.
pub proof fn law_server_names_differ(v: Seq<StartedServer>, n: int)
    requires
        0 <= n <= v.len(),
    ensures
        names_differ(successes(v, n)),
    decreases n,
{
    if n > 0 {
        law_server_names_differ(v, n - 1);
        lemma_position(successes(v, n - 1), v[n - 1].name@, 0);
    }
}

/// The identifier that a name stands for is that of the last server of this name that was started.
pub proof fn law_last_server_of_a_name_counts(v: Seq<StartedServer>, n: int, k: int)
    requires
        0 <= k < n <= v.len(),
        v[k].id is Some,
        forall|j: int|
            k < j < n ==> !((#[trigger] v[j]).id is Some && v[j].name@ == v[k].name@),
    ensures
        successes(v, n).contains((v[k].name@, v[k].id->0)),
    decreases n,
{
    let prev = successes(v, n - 1);
    let all = successes(v, n);
    let wanted = (v[k].name@, v[k].id->0);
    lemma_position(prev, v[n - 1].name@, 0);
    let i = position_of(prev, v[n - 1].name@, 0);
    if k < n - 1 {
        law_last_server_of_a_name_counts(v, n - 1, k);
        let j = choose|j: int| 0 <= j < prev.len() && prev[j] == wanted;
        assert(all[j] == wanted);
    } else {
        assert(all[i] == wanted);
    }
}

/// Launching the servers that a document is already open in tells them nothing.
pub proof fn law_same_servers_are_left_alone(v: Seq<(Seq<char>, u64)>)
    requires
        names_differ(v),
    ensures
        not_among(v, v, v.len() as int) == Seq::<u64>::empty(),
{
    lemma_none_missing(v, v.len() as int);
}

/// What happens when a document gets another path.
#[derive(Debug, Clone, Copy, PartialEq, Eq, Structural)]
pub enum PathChange {
    /// The path is the same.
    Unchanged,
    /// The path is set and the language detected anew; the document has no language servers then.
    /// `close` tells whether it is closed in those that it had.
    Changed { close: bool },
}

/// Decides what happens when a document at `current` gets the path `path`.
pub fn set_doc_path(current: Option<&str>, path: &str) -> (r: PathChange)
    ensures
        r == match current {
            Some(old_path) => if path_parts(old_path@) == path_parts(path@) {
                PathChange::Unchanged
            } else {
                PathChange::Changed { close: true }
            },
            None => PathChange::Changed { close: false },
        },
{
    match current {
        Some(old_path) => if same_path(old_path, path) {
            PathChange::Unchanged
        } else {
            PathChange::Changed { close: true }
        },
        None => PathChange::Changed { close: false },
    }
}

/// What happens when a file is moved.
#[derive(Debug)]
pub struct MovePlan {
    /// The servers that are asked for edits before.
    pub ask: Vec<u64>,
    /// Rename the file on disk; if that fails, the rest is left.
    pub rename: bool,
    /// Give the document of the active tab the new path.
    pub set_path: bool,
}

/// Those of the first `n` servers that are initialised.
pub open spec fn initialized(v: Seq<(u64, bool)>, n: int) -> Seq<u64>
    decreases n,
{
    if n <= 0 {
        Seq::empty()
    } else if v[n - 1].1 {
        initialized(v, n - 1).push(v[n - 1].0)
    } else {
        initialized(v, n - 1)
    }
}

/// The servers that take part in moving a file: those that are initialised.
pub fn initialized_servers(servers: &Vec<(u64, bool)>) -> (r: Vec<u64>)
    ensures
        r@ == initialized(servers@, servers@.len() as int),
{
    let mut out: Vec<u64> = Vec::new();
    let mut i: usize = 0;
    while i < servers.len()
        invariant
            i <= servers@.len(),
            out@ == initialized(servers@, i as int),
        decreases servers@.len() - i,
    {
        let (id, ready) = servers[i];
        if ready {
            out.push(id);
        }
        i = i + 1;
    }
    out
}

/// Decides what happens when the file at `old_path` is moved to `new_path`, both resolved.
/// `active_path` is the path of the document in the active tab, `exists` whether there is a file at
/// the old path. Nothing happens if the paths are the same.
pub fn move_path(
    old_path: &str,
    new_path: &str,
    servers: &Vec<(u64, bool)>,
    exists: bool,
    active_path: Option<&str>,
) -> (r: Option<MovePlan>)
    ensures
        if path_parts(old_path@) == path_parts(new_path@) {
            r is None
        } else {
            r matches Some(plan) && plan.ask@ == initialized(servers@, servers@.len() as int)
                && plan.rename == exists && plan.set_path == (active_path matches Some(p)
                && path_parts(p@) == path_parts(old_path@))
        },
{
    if same_path(old_path, new_path) {
        return None;
    }
    let set_path = match active_path {
        Some(p) => same_path(p, old_path),
        None => false,
    };
    Some(MovePlan { ask: initialized_servers(servers), rename: exists, set_path })
}

/// How long to wait for language servers to shut down, in milliseconds.
pub fn shutdown_timeout(timeout: Option<u64>) -> (r: u64)
    ensures
        r == match timeout {
            Some(t) => t,
            None => 10000,
        },
{
    match timeout {
        Some(t) => t,
        None => 10000,
    }
}

/// A server in the configuration of a language.
#[derive(Debug)]
pub struct ServerFeatures {
    pub name: String,
    /// Whether its diagnostics are wanted.
    pub diagnostics: bool,
}

/// Whether the diagnostics of a server are wanted.
pub open spec fn wants_diagnostics(features: Seq<ServerFeatures>, name: Seq<char>, n: int) -> bool {
    exists|i: int| 0 <= i < n && (#[trigger] features[i]).name@ == name && features[i].diagnostics
}

/// Whether a diagnostic is shown: it comes from a server that runs, the document's language wants
/// the diagnostics of that server, and the filter accepts it.
pub open spec fn diagnostic_shown(
    source: (Option<u64>, bool),
    servers: Seq<NamedServer>,
    features: Option<Seq<ServerFeatures>>,
) -> bool {
    &&& source.1
    &&& source.0 matches Some(id) && name_of(servers, id, 0) matches Some(name)
        && features matches Some(f) && wants_diagnostics(f, name, f.len() as int)
}

/// The name of the first server from `i` on with an identifier.
pub open spec fn name_of(servers: Seq<NamedServer>, id: u64, i: int) -> Option<Seq<char>>
    decreases servers.len() - i,
{
    if i < 0 || i >= servers.len() {
        None
    } else if servers[i].id == id {
        Some(servers[i].name@)
    } else {
        name_of(servers, id, i + 1)
    }
}

/// Which of the first `n` diagnostics are shown.
pub open spec fn shown_diagnostics(
    sources: Seq<(Option<u64>, bool)>,
    servers: Seq<NamedServer>,
    features: Option<Seq<ServerFeatures>>,
    n: int,
) -> Seq<usize>
    decreases n,
{
    if n <= 0 {
        Seq::empty()
    } else if diagnostic_shown(sources[n - 1], servers, features) {
        shown_diagnostics(sources, servers, features, n - 1).push((n - 1) as usize)
    } else {
        shown_diagnostics(sources, servers, features, n - 1)
    }
}

fn find_by_id(servers: &Vec<NamedServer>, id: u64) -> (r: Option<usize>)
    ensures
        match r {
            Some(i) => i < servers@.len() && name_of(servers@, id, 0) == Some(
                servers@[i as int].name@,
            ),
            None => name_of(servers@, id, 0) is None,
        },
{
    let mut i: usize = 0;
    while i < servers.len()
        invariant
            i <= servers@.len(),
            name_of(servers@, id, 0) == name_of(servers@, id, i as int),
        decreases servers@.len() - i,
    {
        if servers[i].id == id {
            return Some(i);
        }
        i = i + 1;
    }
    None
}

fn wants(features: &Vec<ServerFeatures>, name: &str) -> (r: bool)
    ensures
        r == wants_diagnostics(features@, name@, features@.len() as int),
{
    let mut i: usize = 0;
    while i < features.len()
        invariant
            i <= features@.len(),
            !wants_diagnostics(features@, name@, i as int),
        decreases features@.len() - i,
    {
        if str_eq(features[i].name.as_str(), name) && features[i].diagnostics {
            assert(features@[i as int].name@ == name@);
            return true;
        }
        i = i + 1;
    }
    false
}

/// Which diagnostics of a document are shown. For each there is the server that it comes from, if
/// it comes from one, and whether the filter accepts it; `features` are the servers of the
/// document's language, if it has one.
pub fn doc_diagnostics_with_filter(
    sources: &Vec<(Option<u64>, bool)>,
    servers: &Vec<NamedServer>,
    features: Option<&Vec<ServerFeatures>>,
) -> (r: Vec<usize>)
    ensures
        r@ == shown_diagnostics(
            sources@,
            servers@,
            match features {
                Some(f) => Some(f@),
                None => None,
            },
            sources@.len() as int,
        ),
{
    let ghost wanted = match features {
        Some(f) => Some(f@),
        None => None,
    };
    let mut out: Vec<usize> = Vec::new();
    let mut i: usize = 0;
    while i < sources.len()
        invariant
            i <= sources@.len(),
            wanted == (match features {
                Some(f) => Some(f@),
                None => None,
            }),
            out@ == shown_diagnostics(sources@, servers@, wanted, i as int),
        decreases sources@.len() - i,
    {
        let (server, accepted) = sources[i];
        let known = match server {
            Some(id) => match find_by_id(servers, id) {
                Some(k) => match features {
                    Some(f) => wants(f, servers[k].name.as_str()),
                    None => false,
                },
                None => false,
            },
            None => false,
        };
        if known && accepted {
            out.push(i);
        }
        i = i + 1;
    }
    out
}

/// The sources of diagnostics, all accepted.
pub open spec fn all_accepted(sources: Seq<Option<u64>>) -> Seq<(Option<u64>, bool)> {
    sources.map_values(|s: Option<u64>| (s, true))
}

/// Which diagnostics of a document are shown, without a filter.
pub fn doc_diagnostics(
    sources: &Vec<Option<u64>>,
    servers: &Vec<NamedServer>,
    features: Option<&Vec<ServerFeatures>>,
) -> (r: Vec<usize>)
    ensures
        r@ == shown_diagnostics(
            all_accepted(sources@),
            servers@,
            match features {
                Some(f) => Some(f@),
                None => None,
            },
            sources@.len() as int,
        ),
{
    let mut accepted: Vec<(Option<u64>, bool)> = Vec::new();
    let mut i: usize = 0;
    while i < sources.len()
        invariant
            i <= sources@.len(),
            accepted@ == all_accepted(sources@).take(i as int),
        decreases sources@.len() - i,
    {
        accepted.push((sources[i], true));
        assert(accepted@ =~= all_accepted(sources@).take(i + 1));
        i = i + 1;
    }
    assert(accepted@ =~= all_accepted(sources@));
    doc_diagnostics_with_filter(&accepted, servers, features)
}

/// The diagnostics of a file, each with the server that it comes from, if it comes from one.
#[derive(Debug)]
pub struct FileDiagnostics<X> {
    pub uri: String,
    pub diagnostics: Vec<(X, Option<u64>)>,
}

/// The first `n` diagnostics without those of a server.
pub open spec fn without_server<X>(v: Seq<(X, Option<u64>)>, server: u64, n: int) -> Seq<
    (X, Option<u64>),
>
    decreases n,
{
    if n <= 0 {
        Seq::empty()
    } else if v[n - 1].1 == Some(server) {
        without_server(v, server, n - 1)
    } else {
        without_server(v, server, n - 1).push(v[n - 1])
    }
}

/// The files and their diagnostics.
pub open spec fn file_diagnostics<X>(v: Seq<FileDiagnostics<X>>) -> Seq<
    (String, Seq<(X, Option<u64>)>),
> {
    v.map_values(|f: FileDiagnostics<X>| (f.uri, f.diagnostics@))
}

/// The first `n` files with the diagnostics that are left when a server exits; files without any
/// are dropped.
pub open spec fn after_exit<X>(v: Seq<FileDiagnostics<X>>, server: u64, n: int) -> Seq<
    (String, Seq<(X, Option<u64>)>),
>
    decreases n,
{
    if n <= 0 {
        Seq::empty()
    } else {
        let rest = without_server(
            v[n - 1].diagnostics@,
            server,
            v[n - 1].diagnostics@.len() as int,
        );
        if rest.len() == 0 {
            after_exit(v, server, n - 1)
        } else {
            after_exit(v, server, n - 1).push((v[n - 1].uri, rest))
        }
    }
}

fn drop_server<X>(v: Vec<(X, Option<u64>)>, server: u64) -> (r: Vec<(X, Option<u64>)>)
    ensures
        r@ == without_server(v@, server, v@.len() as int),
{
    let ghost all = v@;
    let mut out: Vec<(X, Option<u64>)> = Vec::new();
    for d in it: v
        invariant
            it.seq() == all,
            out@ == without_server(all, server, it.index() as int),
    {
        assert(all[it.index() as int] == d);
        let of_server = match d.1 {
            Some(id) => id == server,
            None => false,
        };
        if !of_server {
            out.push(d);
        }
    }
    out
}

/// Drops the diagnostics of a language server that has exited, also those of files that are not
/// open, and the files that have none left.
pub fn drop_server_diagnostics<X>(diagnostics: Vec<FileDiagnostics<X>>, server: u64) -> (r: Vec<
    FileDiagnostics<X>,
>)
    ensures
        file_diagnostics(r@) == after_exit(diagnostics@, server, diagnostics@.len() as int),
{
    let ghost all = diagnostics@;
    let mut out: Vec<FileDiagnostics<X>> = Vec::new();
    assert(file_diagnostics(out@) =~= Seq::empty());
    for f in it: diagnostics
        invariant
            it.seq() == all,
            file_diagnostics(out@) == after_exit(all, server, it.index() as int),
    {
        assert(all[it.index() as int] == f);
        let ghost before = out@;
        let rest = drop_server(f.diagnostics, server);
        if rest.len() > 0 {
            out.push(FileDiagnostics { uri: f.uri, diagnostics: rest });
            assert(file_diagnostics(out@) =~= file_diagnostics(before).push((f.uri, rest@)));
        }
    }
    out
}

proof fn lemma_none_of_server<X>(v: Seq<(X, Option<u64>)>, server: u64, n: int)
    requires
        0 <= n <= v.len(),
    ensures
        forall|i: int|
            0 <= i < without_server(v, server, n).len() ==> (
            #[trigger] without_server(v, server, n)[i]).1 != Some(server),
    decreases n,
{
    if n > 0 {
        lemma_none_of_server(v, server, n - 1);
    }
}

/// After a language server has exited, no diagnostic of it is left, and no file without any.
pub proof fn law_exit_leaves_nothing<X>(v: Seq<FileDiagnostics<X>>, server: u64, n: int)
    requires
        0 <= n <= v.len(),
    ensures
        forall|i: int|
            0 <= i < after_exit(v, server, n).len() ==> (#[trigger] after_exit(v, server, n)[i]).1.len()
                > 0,
        forall|i: int, j: int|
            #![trigger after_exit(v, server, n)[i].1[j]]
            0 <= i < after_exit(v, server, n).len() && 0 <= j < after_exit(v, server, n)[i].1.len()
                ==> after_exit(v, server, n)[i].1[j].1 != Some(server),
    decreases n,
{
    if n > 0 {
        law_exit_leaves_nothing(v, server, n - 1);
        lemma_none_of_server(
            v[n - 1].diagnostics@,
            server,
            v[n - 1].diagnostics@.len() as int,
        );
    }
}

proof fn lemma_server_named(v: Seq<(Seq<char>, u64)>, name: Seq<char>, i: int)
    requires
        0 <= i <= v.len(),
    ensures
        match server_named(v, name, i) {
            Some(id) => exists|k: int| i <= k < v.len() && #[trigger] v[k] == (name, id),
            None => forall|k: int| i <= k < v.len() ==> (#[trigger] v[k]).0 != name,
        },
    decreases v.len() - i,
{
    if i < v.len() {
        if v[i].0 != name {
            lemma_server_named(v, name, i + 1);
        } else {
            assert(v[i] == (name, v[i].1));
        }
    }
}

/// A server is told of the difference exactly if the other list does not hold it by its name: where no
/// name occurs twice, those told are the ones that the other list lacks, in their order.
pub proof fn law_difference_of_servers(
    v: Seq<(Seq<char>, u64)>,
    other: Seq<(Seq<char>, u64)>,
    n: int,
    k: int,
)
    requires
        names_differ(other),
        0 <= k < n <= v.len(),
    ensures
        !other.contains(v[k]) ==> not_among(v, other, n).contains(v[k].1),
        (forall|m: int| 0 <= m < n ==> other.contains(#[trigger] v[m])) ==> not_among(
            v,
            other,
            n,
        ).len() == 0,
        not_among(v, other, n).len() <= n,
    decreases n,
{
    let prev = not_among(v, other, n - 1);
    let all = not_among(v, other, n);
    lemma_server_named(other, v[n - 1].0, 0);
    if other.contains(v[n - 1]) {
        let m = choose|m: int| 0 <= m < other.len() && other[m] == v[n - 1];
        lemma_named_self(other, m, 0);
    } else if server_named(other, v[n - 1].0, 0) == Some(v[n - 1].1) {
        let m = choose|m: int| 0 <= m < other.len() && #[trigger] other[m] == (v[n - 1].0, v[n - 1].1);
        assert(other[m] == v[n - 1]);
    }
    if n > 1 {
        law_difference_of_servers(v, other, n - 1, if k < n - 1 {
            k
        } else {
            0
        });
    }
    if k < n - 1 {
        if prev.contains(v[k].1) {
            let m = choose|m: int| 0 <= m < prev.len() && prev[m] == v[k].1;
            assert(all[m] == v[k].1);
        }
    } else if !other.contains(v[k]) {
        assert(all[prev.len() as int] == v[k].1);
    }
    if forall|m: int| 0 <= m < n ==> other.contains(#[trigger] v[m]) {
        assert(other.contains(v[n - 1]));
        assert forall|m: int| 0 <= m < n - 1 implies other.contains(#[trigger] v[m]) by {
            assert(other.contains(v[m]));
        }
    }
}

/// The servers that take part in moving a file are the initialised ones, in their order.
pub proof fn law_initialized_servers_take_part(v: Seq<(u64, bool)>, n: int)
    requires
        0 <= n <= v.len(),
    ensures
        initialized(v, n) == v.take(n).filter(|x: (u64, bool)| x.1).map_values(|x: (u64, bool)| x.0),
    decreases n,
{
    reveal(Seq::filter);
    if n > 0 {
        law_initialized_servers_take_part(v, n - 1);
        assert(v.take(n).drop_last() =~= v.take(n - 1));
        assert(initialized(v, n) =~= v.take(n).filter(|x: (u64, bool)| x.1).map_values(
            |x: (u64, bool)| x.0,
        ));
    } else {
        assert(v.take(n) =~= Seq::empty());
        assert(initialized(v, n) =~= v.take(n).filter(|x: (u64, bool)| x.1).map_values(
            |x: (u64, bool)| x.0,
        ));
    }
}

proof fn lemma_name_of(servers: Seq<NamedServer>, id: u64, i: int)
    requires
        0 <= i <= servers.len(),
    ensures
        match name_of(servers, id, i) {
            Some(name) => exists|k: int|
                i <= k < servers.len() && (#[trigger] servers[k]).id == id && servers[k].name@ == name,
            None => forall|k: int| i <= k < servers.len() ==> (#[trigger] servers[k]).id != id,
        },
    decreases servers.len() - i,
{
    if i < servers.len() && servers[i].id != id {
        lemma_name_of(servers, id, i + 1);
    }
}

/// A diagnostic is shown only if it is accepted, comes from a server that is there, and the language
/// names that server and wants its diagnostics. One without a server, or of a document without a
/// language, is not shown.
pub proof fn law_shown_diagnostics_are_wanted(
    source: (Option<u64>, bool),
    servers: Seq<NamedServer>,
    features: Option<Seq<ServerFeatures>>,
)
    ensures
        !source.1 || source.0 is None || features is None ==> !diagnostic_shown(
            source,
            servers,
            features,
        ),
        diagnostic_shown(source, servers, features) ==> exists|k: int, f: int|
            0 <= k < servers.len() && 0 <= f < features->0.len() && Some(
                (#[trigger] servers[k]).id,
            ) == source.0 && servers[k].name@ == (#[trigger] features->0[f]).name@
                && features->0[f].diagnostics,
{
    if diagnostic_shown(source, servers, features) {
        let id = source.0->0;
        lemma_name_of(servers, id, 0);
        let name = name_of(servers, id, 0)->0;
        let k = choose|k: int|
            0 <= k < servers.len() && (#[trigger] servers[k]).id == id && servers[k].name@ == name;
        let f = choose|f: int|
            0 <= f < features->0.len() && (#[trigger] features->0[f]).name@ == name
                && features->0[f].diagnostics;
        assert(Some(servers[k].id) == source.0);
    }
}

/// What a server that is there reports, and whose diagnostics the language wants, is shown if it is
/// accepted.
pub proof fn law_wanted_diagnostics_are_shown(
    id: u64,
    servers: Seq<NamedServer>,
    features: Seq<ServerFeatures>,
    k: int,
    f: int,
)
    requires
        0 <= k < servers.len(),
        0 <= f < features.len(),
        servers[k].id == id,
        forall|m: int| 0 <= m < servers.len() && m != k ==> (#[trigger] servers[m]).id != id,
        features[f].name@ == servers[k].name@,
        features[f].diagnostics,
    ensures
        diagnostic_shown((Some(id), true), servers, Some(features)),
        !diagnostic_shown((Some(id), false), servers, Some(features)),
{
    lemma_name_of(servers, id, 0);
    assert(servers[k].id == id);
}

/// The diagnostics that are given are all that are shown, in their order.
pub proof fn law_all_shown_diagnostics_are_given(sources: Seq<(Option<u64>, bool)>, servers: Seq<NamedServer>, features: Option<Seq<ServerFeatures>>, n: int)
    requires
        sources.len() <= usize::MAX,
        0 <= n <= sources.len(),
    ensures
        forall|k: int|
            #![trigger shown_diagnostics(sources, servers, features, n).contains(k as usize)]
            0 <= k < n ==> (shown_diagnostics(sources, servers, features, n).contains(k as usize) <==> (diagnostic_shown(sources[k], servers, features))),
        forall|a: int|
            0 <= a < shown_diagnostics(sources, servers, features, n).len() ==> 0 <= #[trigger] shown_diagnostics(sources, servers, features, n)[a] < n,
        forall|a: int, b: int|
            0 <= a < b < shown_diagnostics(sources, servers, features, n).len() ==> #[trigger] shown_diagnostics(sources, servers, features, n)[a] < #[trigger] shown_diagnostics(sources, servers, features, n)[b],
    decreases n,
{
    if n > 0 {
        law_all_shown_diagnostics_are_given(sources, servers, features, n - 1);
        let prev = shown_diagnostics(sources, servers, features, n - 1);
        let all = shown_diagnostics(sources, servers, features, n);
        assert forall|k: int|
            #![trigger all.contains(k as usize)]
            0 <= k < n implies (all.contains(k as usize) <==> (diagnostic_shown(sources[k], servers, features))) by {
            if k < n - 1 {
                if prev.contains(k as usize) {
                    let a = choose|a: int| 0 <= a < prev.len() && prev[a] == k as usize;
                    assert(all[a] == k as usize);
                }
                if all.contains(k as usize) {
                    let a = choose|a: int| 0 <= a < all.len() && all[a] == k as usize;
                    assert(prev[a] == k as usize);
                }
            } else {
                if all.len() > prev.len() {
                    assert(all[prev.len() as int] == k as usize);
                } else if all.contains(k as usize) {
                    let a = choose|a: int| 0 <= a < all.len() && all[a] == k as usize;
                    assert(prev[a] < n - 1);
                }
            }
        }
    }
}

/// The diagnostics of a server that is gone are dropped, and those of no other one; the others stay in
/// their order.
pub proof fn law_diagnostics_of_others_stay<X>(v: Seq<(X, Option<u64>)>, server: u64, n: int)
    requires
        0 <= n <= v.len(),
    ensures
        without_server(v, server, n) == v.take(n).filter(|x: (X, Option<u64>)| x.1 != Some(server)),
    decreases n,
{
    reveal(Seq::filter);
    if n > 0 {
        law_diagnostics_of_others_stay(v, server, n - 1);
        assert(v.take(n).drop_last() =~= v.take(n - 1));
    } else {
        assert(v.take(n) =~= Seq::empty());
        assert(without_server(v, server, n) =~= v.take(n).filter(|x: (X, Option<u64>)| x.1 != Some(server)));
    }
}

/// A file that has diagnostics of another server, or of none, keeps them.
pub proof fn law_files_keep_other_diagnostics<X>(v: Seq<FileDiagnostics<X>>, server: u64, n: int, k: int, m: int)
    requires
        0 <= k < n <= v.len(),
        0 <= m < v[k].diagnostics@.len(),
        v[k].diagnostics@[m].1 != Some(server),
    ensures
        exists|a: int|
            0 <= a < after_exit(v, server, n).len() && (#[trigger] after_exit(v, server, n)[a]).0
                == v[k].uri && after_exit(v, server, n)[a].1.contains(v[k].diagnostics@[m]),
    decreases n,
{
    let d = v[n - 1].diagnostics@;
    let prev = after_exit(v, server, n - 1);
    let all = after_exit(v, server, n);
    if k < n - 1 {
        law_files_keep_other_diagnostics(v, server, n - 1, k, m);
        let a = choose|a: int|
            0 <= a < prev.len() && (#[trigger] prev[a]).0 == v[k].uri && prev[a].1.contains(
                v[k].diagnostics@[m],
            );
        assert(all[a] == prev[a]);
    } else {
        law_diagnostics_of_others_stay(d, server, d.len() as int);
        assert(d.take(d.len() as int) =~= d);
        let pred = |x: (X, Option<u64>)| x.1 != Some(server);
        d.filter_lemma(pred);
        assert(d.filter(pred).contains(d[m]));
        assert(all[prev.len() as int].1.contains(d[m]));
    }
}

/// A server that was started is found by its name from then on, and the others are found as before.
pub proof fn law_started_server_is_found(
    v: Seq<(Seq<char>, u64)>,
    name: Seq<char>,
    id: u64,
    other: Seq<char>,
)
    requires
        names_differ(v),
    ensures
        names_differ(with_server(v, name, id)),
        server_named(with_server(v, name, id), name, 0) == Some(id),
        other != name ==> server_named(with_server(v, name, id), other, 0) == server_named(v, other, 0),
{
    let w = with_server(v, name, id);
    lemma_position(v, name, 0);
    lemma_server_named(w, name, 0);
    lemma_server_named(w, other, 0);
    lemma_server_named(v, other, 0);
    let i = position_of(v, name, 0);
    assert(w[i] == (name, id));
    match server_named(w, name, 0) {
        Some(found) => {
            let k = choose|k: int| 0 <= k < w.len() && #[trigger] w[k] == (name, found);
            assert(w[k].0 == w[i].0);
        },
        None => {},
    }
    if other != name {
        match server_named(w, other, 0) {
            Some(found) => {
                let k = choose|k: int| 0 <= k < w.len() && #[trigger] w[k] == (other, found);
                assert(v[k] == (other, found));
                match server_named(v, other, 0) {
                    Some(before) => {
                        let m = choose|m: int| 0 <= m < v.len() && #[trigger] v[m] == (other, before);
                        assert(v[m].0 == v[k].0);
                    },
                    None => {},
                }
            },
            None => {
                match server_named(v, other, 0) {
                    Some(before) => {
                        let m = choose|m: int| 0 <= m < v.len() && #[trigger] v[m] == (other, before);
                        assert(w[m] == v[m]);
                    },
                    None => {},
                }
            },
        }
    }
}

} // verus!
