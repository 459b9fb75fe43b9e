//! Themes: styles by scope.
use crate::graphics::law_patch_identity;
use crate::graphics::patched;
use crate::graphics::plain_style;
use crate::graphics::Style;
use crate::strings::char_vec;
use crate::strings::string_of;
use vstd::prelude::*;
use vstd::string::*;

verus! {

/// The style of a scope.
#[derive(Debug)]
pub struct ThemeEntry {
    pub scope: String,
    pub style: Style,
}

/// A theme; the number of a scope is its highlight.
#[derive(Debug)]
pub struct Theme {
    pub name: String,
    pub entries: Vec<ThemeEntry>,
}

/// The scopes and their styles.
pub open spec fn entries_of(t: Theme) -> Seq<(Seq<char>, Style)> {
    t.entries@.map_values(|e: ThemeEntry| (e.scope@, e.style))
}

/// The first place from `i` on where `scope` stands.
pub open spec fn scope_from(e: Seq<(Seq<char>, Style)>, scope: Seq<char>, i: int) -> Option<usize>
    decreases e.len() - i,
{
    if i < 0 || i >= e.len() {
        None
    } else if e[i].0 == scope {
        Some(i as usize)
    } else {
        scope_from(e, scope, i + 1)
    }
}

/// The highlight of exactly this scope.
pub open spec fn exact(e: Seq<(Seq<char>, Style)>, scope: Seq<char>) -> Option<usize> {
    scope_from(e, scope, 0)
}

/// The last dot among the first `n` characters.
pub open spec fn last_dot(scope: Seq<char>, n: int) -> Option<int>
    decreases n,
{
    if n <= 0 {
        None
    } else if scope[n - 1] == '.' {
        Some(n - 1)
    } else {
        last_dot(scope, n - 1)
    }
}

/// The highlight of the scope, or of the nearest scope around it: what stands before its last dot.
pub open spec fn nearest(e: Seq<(Seq<char>, Style)>, scope: Seq<char>) -> Option<usize>
    decreases scope.len(),
    via nearest_decreases
{
    match exact(e, scope) {
        Some(i) => Some(i),
        None => match last_dot(scope, scope.len() as int) {
            Some(d) => nearest(e, scope.take(d)),
            None => None,
        },
    }
}

proof fn lemma_last_dot(scope: Seq<char>, n: int)
    requires
        n <= scope.len(),
    ensures
        last_dot(scope, n) matches Some(d) ==> 0 <= d < n,
    decreases n,
{
    if n > 0 && scope[n - 1] != '.' {
        lemma_last_dot(scope, n - 1);
    }
}

#[via_fn]
proof fn nearest_decreases(e: Seq<(Seq<char>, Style)>, scope: Seq<char>) {
    lemma_last_dot(scope, scope.len() as int);
}

impl Theme {
    /// The highlight of exactly this scope.
    pub fn find_highlight_exact(&self, scope: &str) -> (r: Option<usize>)
        ensures
            r == exact(entries_of(*self), scope@),
            r matches Some(i) ==> i < self.entries@.len(),
    {
        let wanted = scope.to_owned();
        let mut i: usize = 0;
        while i < self.entries.len()
            invariant
                i <= self.entries@.len(),
                wanted@ == scope@,
                exact(entries_of(*self), scope@) == scope_from(
                    entries_of(*self),
                    scope@,
                    i as int,
                ),
            decreases self.entries@.len() - i,
        {
            if self.entries[i].scope == wanted {
                return Some(i);
            }
            i = i + 1;
        }
        None
    }

    /// The highlight of the scope, or of the nearest scope around it.
    pub fn find_highlight(&self, scope: &str) -> (r: Option<usize>)
        ensures
            r == nearest(entries_of(*self), scope@),
            r matches Some(i) ==> i < self.entries@.len(),
    {
        let chars = char_vec(scope);
        let mut n: usize = chars.len();
        let ghost e = entries_of(*self);
        assert(chars@.take(n as int) =~= scope@);
        loop
            invariant
                e == entries_of(*self),
                n <= chars@.len(),
                nearest(e, scope@) == nearest(e, chars@.take(n as int)),
            decreases n,
        {
            let part = string_of(chars.as_slice(), 0, n);
            let ghost s = chars@.take(n as int);
            assert(part@ =~= s);
            let found = self.find_highlight_exact(part.as_str());
            if found.is_some() {
                return found;
            }
            let mut d: usize = n;
            while d > 0 && chars[d - 1] != '.'
                invariant
                    d <= n <= chars@.len(),
                    s == chars@.take(n as int),
                    last_dot(s, n as int) == last_dot(s, d as int),
                decreases d,
            {
                d = d - 1;
            }
            if d == 0 {
                return None;
            }
            assert(last_dot(s, n as int) == Some(d - 1));
            assert(s.take(d - 1) =~= chars@.take(d - 1));
            n = d - 1;
        }
    }

    /// The style of exactly this scope.
    pub fn try_get_exact(&self, scope: &str) -> (r: Option<Style>)
        ensures
            r == match exact(entries_of(*self), scope@) {
                Some(i) => Some(entries_of(*self)[i as int].1),
                None => None,
            },
    {
        match self.find_highlight_exact(scope) {
            Some(i) => Some(self.entries[i].style),
            None => None,
        }
    }

    /// The style of the scope, or of the nearest scope around it.
    pub fn try_get(&self, scope: &str) -> (r: Option<Style>)
        ensures
            r == match nearest(entries_of(*self), scope@) {
                Some(i) => Some(entries_of(*self)[i as int].1),
                None => None,
            },
    {
        match self.find_highlight(scope) {
            Some(i) => Some(self.entries[i].style),
            None => None,
        }
    }

    /// The style of the scope, or of the nearest scope around it, else one that changes nothing.
    pub fn get(&self, scope: &str) -> (r: Style)
        ensures
            r == style_of(entries_of(*self), scope@),
    {
        match self.try_get(scope) {
            Some(s) => s,
            None => Style::default(),
        }
    }
}

/// The style of the scope, or of the nearest scope around it, else one that changes nothing.
pub open spec fn style_of(e: Seq<(Seq<char>, Style)>, scope: Seq<char>) -> Style {
    match nearest(e, scope) {
        Some(i) => e[i as int].1,
        None => plain_style(),
    }
}

/// A scope that the theme has is found as itself, whether or not scopes around it are there.
pub proof fn law_exact_scope_wins(e: Seq<(Seq<char>, Style)>, scope: Seq<char>)
    requires
        exact(e, scope) is Some,
    ensures
        nearest(e, scope) == exact(e, scope),
{
}

/// The entry that is found for a scope is the first one of exactly that name.
pub proof fn law_scope_is_found(e: Seq<(Seq<char>, Style)>, scope: Seq<char>, i: int)
    requires
        e.len() <= usize::MAX,
        0 <= i <= e.len(),
    ensures
        match scope_from(e, scope, i) {
            Some(k) => i <= k < e.len() && e[(k as int)].0 == scope && (forall|m: int|
                #![trigger e[m]]
                i <= m < k ==> !(e[m].0 == scope)),
            None => forall|m: int| #![trigger e[m]] i <= m < e.len() ==> !(e[m].0 == scope),
        },
    decreases e.len() - i,
{
    if i < e.len() && !(e[i].0 == scope) {
        law_scope_is_found(e, scope, i + 1);
    }
}

proof fn lemma_last_dot_splits(scope: Seq<char>, n: int)
    requires
        0 <= n <= scope.len(),
    ensures
        match last_dot(scope, n) {
            Some(d) => 0 <= d < n && scope[d] == '.' && (forall|i: int|
                d < i < n ==> #[trigger] scope[i] != '.'),
            None => forall|i: int| 0 <= i < n ==> #[trigger] scope[i] != '.',
        },
    decreases n,
{
    if n > 0 && scope[n - 1] != '.' {
        lemma_last_dot_splits(scope, n - 1);
    }
}

/// The entry that stands for a scope has its name or the beginning of it up to a dot, and no entry has
/// a longer beginning. If none stands for it, no entry has such a name.
pub proof fn law_nearest_is_the_longest_beginning(
    e: Seq<(Seq<char>, Style)>,
    scope: Seq<char>,
    m: int,
    d: int,
)
    requires
        e.len() <= usize::MAX,
        0 <= m < e.len(),
        0 <= d <= scope.len(),
        d == scope.len() || scope[d] == '.',
        e[m].0 == scope.take(d),
    ensures
        nearest(e, scope) matches Some(i) && i < e.len() && e[i as int].0.len() >= d && (e[i as int].0
            == scope || (e[i as int].0.len() < scope.len() && scope[e[i as int].0.len() as int] == '.'
            && e[i as int].0 == scope.take(e[i as int].0.len() as int))),
    decreases scope.len(),
{
    law_scope_is_found(e, scope, 0);
    match exact(e, scope) {
        Some(i) => {},
        None => {
            assert(scope.take(scope.len() as int) =~= scope);
            lemma_last_dot_splits(scope, scope.len() as int);
            let at = last_dot(scope, scope.len() as int)->0;
            let short = scope.take(at);
            assert(short.take(d) =~= scope.take(d));
            law_nearest_is_the_longest_beginning(e, short, m, d);
            let i = nearest(e, short)->0;
            let own = e[i as int].0;
            assert(short.take(own.len() as int) =~= scope.take(own.len() as int));
        },
    }
}

/// An entry that does not have the name of a scope, nor a beginning of it up to a dot, does not stand
/// for it.
pub proof fn law_other_scopes_do_not_count(e: Seq<(Seq<char>, Style)>, scope: Seq<char>)
    requires
        e.len() <= usize::MAX,
    ensures
        nearest(e, scope) matches Some(i) ==> i < e.len() && e[i as int].0.len() <= scope.len()
            && e[i as int].0 == scope.take(e[i as int].0.len() as int) && (e[i as int].0.len()
            == scope.len() || scope[e[i as int].0.len() as int] == '.'),
    decreases scope.len(),
{
    law_scope_is_found(e, scope, 0);
    if exact(e, scope) is None {
        lemma_last_dot_splits(scope, scope.len() as int);
        match last_dot(scope, scope.len() as int) {
            Some(at) => {
                let short = scope.take(at);
                law_other_scopes_do_not_count(e, short);
                if nearest(e, short) is Some {
                    let own = e[nearest(e, short)->0 as int].0;
                    assert(short.take(own.len() as int) =~= scope.take(own.len() as int));
                }
            },
            None => {},
        }
    } else {
        assert(scope.take(scope.len() as int) =~= scope);
    }
}

/// A scope without an entry changes nothing of what it is drawn over.
pub proof fn law_unknown_scope_changes_nothing(
    e: Seq<(Seq<char>, Style)>,
    scope: Seq<char>,
    under: Style,
)
    requires
        nearest(e, scope) is None,
    ensures
        patched(under, style_of(e, scope)) == under,
{
    law_patch_identity(under);
}

} // verus!
